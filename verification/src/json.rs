//! JSON texts: quoting strings and reading the members of an object.
use crate::text;
use vstd::prelude::*;

verus! {

/// How JSON spells the character `c` inside a string.
pub open spec fn json_escape(c: char) -> Seq<char> {
    if c == '"' {
        seq!['\\', '"']
    } else if c == '\\' {
        seq!['\\', '\\']
    } else if c == '\u{8}' {
        seq!['\\', 'b']
    } else if c == '\t' {
        seq!['\\', 't']
    } else if c == '\n' {
        seq!['\\', 'n']
    } else if c == '\u{c}' {
        seq!['\\', 'f']
    } else if c == '\r' {
        seq!['\\', 'r']
    } else if ' ' > c {
        seq!['\\', 'u', '0', '0'] + crate::encoding::hex(seq![c as u8])
    } else {
        seq![c]
    }
}

/// `s` with each character spelled as JSON spells it.
pub open spec fn json_escaped(s: Seq<char>) -> Seq<char>
    decreases s.len(),
{
    if s.len() == 0 {
        seq![]
    } else {
        json_escaped(s.drop_last()) + json_escape(s.last())
    }
}

/// The JSON string that stands for `s`.
pub open spec fn json_string(s: Seq<char>) -> Seq<char> {
    seq!['"'] + json_escaped(s) + seq!['"']
}

/// Calls `serde_json::to_string` on a string, which quotes it and escapes quotes, backslashes and
/// control characters.
#[verifier::external_body]
pub(crate) fn json_quoted(text: &str) -> (r: String)
    ensures
        r@ == json_string(text@),
{
    serde_json::to_string(text).expect("a string can be written as JSON")
}

proof fn lemma_escaped_front(s: Seq<char>)
    requires
        s.len() > 0,
    ensures
        json_escaped(s) == json_escape(s[0]) + json_escaped(s.drop_first()),
    decreases s.len(),
{
    if s.len() == 1 {
        assert(s.drop_last() =~= seq![]);
        assert(s.drop_first() =~= seq![]);
        assert(json_escaped(s) =~= json_escape(s[0]) + json_escaped(s.drop_first()));
    } else {
        lemma_escaped_front(s.drop_last());
        assert(s.drop_last().drop_first() =~= s.drop_first().drop_last());
        assert(json_escaped(s) =~= json_escape(s[0]) + json_escaped(s.drop_first()));
    }
}

/// No spelling of a character is the beginning of another one.
proof fn lemma_escapes_are_told_apart(a: char, b: char, x: Seq<char>, y: Seq<char>)
    requires
        json_escape(a) + x == json_escape(b) + y,
    ensures
        a == b,
        x == y,
{
    let p = json_escape(a) + x;
    let q = json_escape(b) + y;
    assert(p[0] == json_escape(a)[0] && q[0] == json_escape(b)[0]);
    if p[0] == '\\' {
        assert(p[1] == json_escape(a)[1] && q[1] == json_escape(b)[1]);
        if ' ' > a && p[1] == 'u' {
            let m = crate::encoding::hex(seq![a as u8]);
            let n = crate::encoding::hex(seq![b as u8]);
            assert(p[4] == m[0] && p[5] == m[1] && q[4] == n[0] && q[5] == n[1]);
            assert(m =~= n);
            crate::encoding::hex_is_injective(seq![a as u8], seq![b as u8]);
            assert(seq![a as u8][0] == seq![b as u8][0]);
            assert(a == b);
        }
    }
    assert(a == b);
    let n = json_escape(a).len() as int;
    assert(x =~= p.skip(n));
    assert(y =~= q.skip(n));
}

/// What is quoted can be told from what stands behind it: two texts that are quoted alike are
/// equal, whatever follows them.
pub proof fn quoted_texts_are_told_apart(a: Seq<char>, b: Seq<char>, x: Seq<char>, y: Seq<char>)
    requires
        json_escaped(a) + seq!['"'] + x == json_escaped(b) + seq!['"'] + y,
    ensures
        a == b,
        x == y,
    decreases a.len(),
{
    let p = json_escaped(a) + seq!['"'] + x;
    let q = json_escaped(b) + seq!['"'] + y;
    if a.len() > 0 {
        lemma_escaped_front(a);
    }
    if b.len() > 0 {
        lemma_escaped_front(b);
    }
    if a.len() == 0 {
        assert(p[0] == '"');
        if b.len() > 0 {
            assert(q[0] == json_escape(b[0])[0]);
        }
        assert(a =~= b);
        assert(x =~= p.skip(1));
        assert(y =~= q.skip(1));
    } else if b.len() == 0 {
        assert(q[0] == '"');
        assert(p[0] == json_escape(a[0])[0]);
    } else {
        let v = json_escaped(a.drop_first()) + seq!['"'] + x;
        let w = json_escaped(b.drop_first()) + seq!['"'] + y;
        assert(p =~= json_escape(a[0]) + v);
        assert(q =~= json_escape(b[0]) + w);
        lemma_escapes_are_told_apart(a[0], b[0], v, w);
        quoted_texts_are_told_apart(a.drop_first(), b.drop_first(), x, y);
        assert(a =~= seq![a[0]] + a.drop_first());
        assert(b =~= seq![b[0]] + b.drop_first());
    }
}

/// Inside a quoted text every quote stands behind a backslash.
pub proof fn quotes_are_escaped(s: Seq<char>)
    ensures
        forall|i: int|
            0 <= i < json_escaped(s).len() && #[trigger] json_escaped(s)[i] == '"' ==> 0 < i
                && json_escaped(s)[i - 1] == '\\',
    decreases s.len(),
{
    if s.len() > 0 {
        let front = json_escaped(s.drop_last());
        let spelled = json_escape(s.last());
        quotes_are_escaped(s.drop_last());
        crate::encoding::hex_is_hexadecimal(seq![s.last() as u8]);
        assert forall|i: int|
            0 <= i < json_escaped(s).len() && #[trigger] json_escaped(s)[i] == '"' implies 0 < i
            && json_escaped(s)[i - 1] == '\\' by {
            if i < front.len() {
                assert(front[i] == '"');
            } else {
                let k = i - front.len();
                assert(spelled[k] == '"');
                if k >= 4 {
                    let digits = crate::encoding::hex(seq![s.last() as u8]);
                    assert(crate::encoding::is_hex_digit(digits[k - 4]));
                }
                assert(k == 1 && spelled[0] == '\\');
            }
        }
    }
}

proof fn lemma_no_later_start(p: Seq<char>, a: Seq<char>, q: Seq<char>, b: Seq<char>)
    requires
        p + json_escaped(a) == q + json_escaped(b),
        q.len() >= 2 && q.last() == '"' && q[q.len() - 2] != '\\',
    ensures
        q.len() <= p.len(),
{
    if p.len() < q.len() {
        let all = p + json_escaped(a);
        let same = q + json_escaped(b);
        let i = q.len() - 1;
        quotes_are_escaped(a);
        assert(all.len() == same.len());
        assert(same[i] == q[i] && same[i - 1] == q[i - 1]);
        assert(all[i] == json_escaped(a)[i - p.len()]);
        assert(all[i - 1] == json_escaped(a)[i - p.len() - 1]);
    }
}

/// Where a quoted text begins can be told from its end: it is the last quote that does not stand
/// behind a backslash.
pub proof fn quoted_texts_are_found(p: Seq<char>, a: Seq<char>, q: Seq<char>, b: Seq<char>)
    requires
        p + json_escaped(a) == q + json_escaped(b),
        p.len() >= 2 && p.last() == '"' && p[p.len() - 2] != '\\',
        q.len() >= 2 && q.last() == '"' && q[q.len() - 2] != '\\',
    ensures
        p == q,
        a == b,
{
    let all = p + json_escaped(a);
    let same = q + json_escaped(b);
    lemma_no_later_start(p, a, q, b);
    lemma_no_later_start(q, b, p, a);
    assert(p =~= all.take(p.len() as int));
    assert(q =~= same.take(q.len() as int));
    assert(json_escaped(a) =~= all.skip(p.len() as int));
    assert(json_escaped(b) =~= same.skip(q.len() as int));
    quoted_texts_are_told_apart(a, b, seq![], seq![]);
}

/// A member of a JSON object.
pub struct Member {
    pub key: String,
    /// The value as compact JSON.
    pub json: String,
    /// The value where it is a string.
    pub text: Option<String>,
    /// The value where it is an integer of that range.
    pub integer: Option<i64>,
    /// The value where it is an integer of that range.
    pub unsigned: Option<u64>,
}

/// The contents of a [`Member`].
pub struct MemberView {
    pub key: Seq<char>,
    pub json: Seq<char>,
    pub text: Option<Seq<char>>,
    pub integer: Option<i64>,
    pub unsigned: Option<u64>,
}

impl View for Member {
    type V = MemberView;

    open spec fn view(&self) -> MemberView {
        MemberView {
            key: self.key@,
            json: self.json@,
            text: match self.text {
                Some(text) => Some(text@),
                None => None,
            },
            integer: self.integer,
            unsigned: self.unsigned,
        }
    }
}

/// The contents of each member.
pub open spec fn members(list: Seq<Member>) -> Seq<MemberView> {
    Seq::new(list.len(), |i: int| list[i]@)
}

/// The first member with the given key.
pub open spec fn member(list: Seq<MemberView>, key: Seq<char>) -> Option<MemberView>
    decreases list.len(),
{
    if list.len() == 0 {
        None
    } else if list[0].key == key {
        Some(list[0])
    } else {
        member(list.drop_first(), key)
    }
}

/// What `serde_json` reads from a text: nothing where it is not JSON, else the members of the
/// object, none where it is another value.
pub uninterp spec fn json_object(text: Seq<char>) -> Option<Seq<MemberView>>;

/// Calls `serde_json::from_str` and hands out the members of the object that it returns.
#[verifier::external_body]
pub(crate) fn read_object(text: &str) -> (r: Option<Vec<Member>>)
    ensures
        match r {
            Some(list) => json_object(text@) == Some(members(list@)),
            None => json_object(text@) is None,
        },
{
    let value: serde_json::Value = serde_json::from_str(text).ok()?;
    let entries = value.as_object().into_iter().flatten();
    Some(entries.map(|(key, value)| Member {
        key: key.clone(),
        json: value.to_string(),
        text: value.as_str().map(str::to_owned),
        integer: value.as_i64(),
        unsigned: value.as_u64(),
    }).collect())
}

/// The position of the first member with the given key.
pub fn find_member(list: &Vec<Member>, key: &str) -> (r: Option<usize>)
    ensures
        match r {
            Some(i) => i < list@.len() && member(members(list@), key@) == Some(list@[i as int]@),
            None => member(members(list@), key@) is None,
        },
{
    let mut i: usize = 0;
    assert(members(list@).skip(0) =~= members(list@));
    while i < list.len()
        invariant
            i <= list@.len(),
            member(members(list@), key@) == member(members(list@).skip(i as int), key@),
        decreases list@.len() - i,
    {
        if text::same(list[i].key.as_str(), key) {
            return Some(i);
        }
        assert(members(list@).skip(i as int).drop_first() =~= members(list@).skip(i + 1));
        i = i + 1;
    }
    None
}

/// Texts are quoted piece by piece, and what needs no escape stands as it is.
pub proof fn quoting_goes_through_the_text(a: Seq<char>, b: Seq<char>)
    ensures
        json_escaped(a + b) == json_escaped(a) + json_escaped(b),
        (forall|k: int|
            0 <= k < a.len() ==> #[trigger] a[k] != '"' && a[k] != '\\' && a[k] >= ' ')
            ==> json_escaped(a) == a,
    decreases a.len() + b.len(),
{
    if b.len() > 0 {
        quoting_goes_through_the_text(a, b.drop_last());
        assert((a + b).drop_last() =~= a + b.drop_last());
        assert((a + b).last() == b.last());
        assert(json_escaped(a + b) =~= json_escaped(a) + json_escaped(b));
    } else {
        assert(a + b =~= a);
        assert(json_escaped(a) + json_escaped(b) =~= json_escaped(a));
        if a.len() > 0 {
            quoting_goes_through_the_text(a.drop_last(), b);
            if forall|k: int|
                0 <= k < a.len() ==> #[trigger] a[k] != '"' && a[k] != '\\' && a[k] >= ' ' {
                assert forall|k: int| 0 <= k < a.drop_last().len() implies #[trigger] a.drop_last()[k]
                    != '"' && a.drop_last()[k] != '\\' && a.drop_last()[k] >= ' ' by {
                    assert(a.drop_last()[k] == a[k]);
                }
                assert(a.last() == a[a.len() - 1]);
                assert(json_escape(a.last()) =~= seq![a.last()]);
                assert(json_escaped(a) =~= a);
            }
        } else {
            assert(json_escaped(a) =~= a);
        }
    }
}

/// The member under a key is the first with that key, and there is none exactly where no member has
/// it.
pub proof fn member_is_the_first(list: Seq<MemberView>, key: Seq<char>)
    ensures
        match member(list, key) {
            Some(found) => exists|i: int|
                0 <= i < list.len() && #[trigger] list[i] == found && list[i].key == key && forall|
                    k: int,
                |
                    0 <= k < i ==> (#[trigger] list[k]).key != key,
            None => forall|k: int| 0 <= k < list.len() ==> (#[trigger] list[k]).key != key,
        },
    decreases list.len(),
{
    if list.len() > 0 {
        let rest = list.drop_first();
        member_is_the_first(rest, key);
        if list[0].key == key {
            assert(list[0] == member(list, key)->Some_0);
        } else {
            match member(rest, key) {
                Some(found) => {
                    let i = choose|i: int|
                        0 <= i < rest.len() && #[trigger] rest[i] == found && rest[i].key == key
                            && forall|k: int| 0 <= k < i ==> (#[trigger] rest[k]).key != key;
                    assert(list[i + 1] == rest[i]);
                    assert forall|k: int| 0 <= k < i + 1 implies (#[trigger] list[k]).key != key by {
                        if k > 0 {
                            assert(rest[k - 1] == list[k]);
                        }
                    }
                },
                None => {
                    assert forall|k: int| 0 <= k < list.len() implies (#[trigger] list[k]).key
                        != key by {
                        if k > 0 {
                            assert(rest[k - 1] == list[k]);
                        }
                    }
                },
            }
        }
    }
}

/// Contracts speak of what the members of an object hold, one by one.
pub proof fn members_are_taken_as_they_are(list: Seq<Member>, i: int)
    ensures
        members(list).len() == list.len(),
        0 <= i < list.len() ==> {
            let shown = members(list)[i];
            &&& shown.key == list[i].key@
            &&& shown.json == list[i].json@
            &&& list[i].text matches Some(text) ==> shown.text == Some(text@)
            &&& list[i].text is None ==> shown.text is None
            &&& shown.integer == list[i].integer
            &&& shown.unsigned == list[i].unsigned
        },
{
}

} // verus!
