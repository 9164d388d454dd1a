//! Policies: attribute lists written as one string.
//!
//! A policy names its attributes separated by commas. White space around an
//! attribute does not belong to it, and an entry that is empty once its
//! white space is gone names no attribute. White space is what Unicode
//! defines as such.

use vstd::prelude::*;
use vstd::string::StrSliceExecFns;
use vstd::string::StringExecFns;

verus! {

/// Whether `c` is white space: whether it is one of the 25 characters that
/// have `White_Space` in the Unicode character database, which are the
/// characters that `char::is_whitespace` tells of. They are U+0009 to
/// U+000D, U+0020, U+0085, U+00A0, U+1680, U+2000 to U+200A, U+2028,
/// U+2029, U+202F, U+205F and U+3000.
pub open spec fn is_white_space(c: char) -> bool {
    let n = c as u32;
    ||| 0x0009 <= n <= 0x000d
    ||| n == 0x0020
    ||| n == 0x0085
    ||| n == 0x00a0
    ||| n == 0x1680
    ||| 0x2000 <= n <= 0x200a
    ||| n == 0x2028
    ||| n == 0x2029
    ||| n == 0x202f
    ||| n == 0x205f
    ||| n == 0x3000
}

/// Whether `c` is white space.
pub fn is_space(c: char) -> (space: bool)
    ensures
        space == is_white_space(c),
{
    let n: u32 = c as u32;
    if n < 0x0080 {
        (0x0009 <= n && n <= 0x000d) || n == 0x0020
    } else if n < 0x2000 {
        n == 0x0085 || n == 0x00a0 || n == 0x1680
    } else if n <= 0x200a {
        true
    } else {
        n == 0x2028 || n == 0x2029 || n == 0x202f || n == 0x205f || n == 0x3000
    }
}

/// The number of characters of `s` before its first comma, or the length
/// of `s` if it has none.
pub open spec fn first_comma(s: Seq<char>) -> int
    decreases s.len(),
{
    if s.len() == 0 || s[0] == ',' {
        0
    } else {
        1 + first_comma(s.drop_first())
    }
}

/// `s` without the white space at its start.
pub open spec fn trim_start(s: Seq<char>) -> Seq<char>
    decreases s.len(),
{
    if s.len() > 0 && is_white_space(s[0]) {
        trim_start(s.drop_first())
    } else {
        s
    }
}

/// `s` without the white space at its end.
pub open spec fn trim_end(s: Seq<char>) -> Seq<char>
    decreases s.len(),
{
    if s.len() > 0 && is_white_space(s.last()) {
        trim_end(s.drop_last())
    } else {
        s
    }
}

/// `s` without the white space at its start and at its end.
pub open spec fn trimmed(s: Seq<char>) -> Seq<char> {
    trim_end(trim_start(s))
}

/// The attributes that a policy names, in order: the entries between
/// commas, each trimmed, without those that are then empty.
pub open spec fn policy_attributes(policy: Seq<char>) -> Seq<Seq<char>>
    decreases policy.len(),
{
    let k = first_comma(policy);
    let entry = trimmed(policy.subrange(0, k));
    let named = if entry.len() > 0 {
        seq![entry]
    } else {
        Seq::empty()
    };
    if 0 <= k < policy.len() {
        named + policy_attributes(policy.subrange(k + 1, policy.len() as int))
    } else {
        named
    }
}

/// The character strings of a list of attributes.
pub open spec fn names(attributes: Seq<String>) -> Seq<Seq<char>> {
    Seq::new(attributes.len(), |i: int| attributes[i]@)
}

/// Whether `name` can be the name of an attribute in a policy: it is not
/// empty, has no white space at its start or its end, and holds no comma.
pub open spec fn is_attribute_name(name: Seq<char>) -> bool {
    &&& name.len() > 0
    &&& !is_white_space(name[0])
    &&& !is_white_space(name.last())
    &&& forall|j: int| 0 <= j < name.len() ==> name[j] != ','
}

proof fn lemma_first_comma_bounds(s: Seq<char>)
    ensures
        0 <= first_comma(s) <= s.len(),
        forall|j: int| 0 <= j < first_comma(s) ==> s[j] != ',',
    decreases s.len(),
{
    if s.len() > 0 && s[0] != ',' {
        let rest = s.drop_first();
        lemma_first_comma_bounds(rest);
        assert forall|j: int| 0 <= j < first_comma(s) implies s[j] != ',' by {
            if j > 0 {
                assert(s[j] == rest[j - 1]);
            }
        }
    }
}

proof fn lemma_trim_start_is_suffix(s: Seq<char>)
    ensures
        trim_start(s).len() <= s.len(),
        trim_start(s) == s.subrange(s.len() - trim_start(s).len(), s.len() as int),
        trim_start(s).len() > 0 ==> !is_white_space(trim_start(s)[0]),
    decreases s.len(),
{
    if s.len() > 0 && is_white_space(s[0]) {
        let rest = s.drop_first();
        lemma_trim_start_is_suffix(rest);
        assert(rest.subrange(rest.len() - trim_start(rest).len(), rest.len() as int) =~= s.subrange(
            s.len() - trim_start(s).len(),
            s.len() as int,
        ));
    } else {
        assert(s.subrange(0, s.len() as int) =~= s);
    }
}

proof fn lemma_trim_end_is_prefix(s: Seq<char>)
    ensures
        trim_end(s).len() <= s.len(),
        trim_end(s) == s.subrange(0, trim_end(s).len() as int),
        trim_end(s).len() > 0 ==> !is_white_space(trim_end(s).last()),
    decreases s.len(),
{
    if s.len() > 0 && is_white_space(s.last()) {
        let rest = s.drop_last();
        lemma_trim_end_is_prefix(rest);
        assert(rest.subrange(0, trim_end(rest).len() as int) =~= s.subrange(
            0,
            trim_end(s).len() as int,
        ));
    } else {
        assert(s.subrange(0, s.len() as int) =~= s);
    }
}

/// Every attribute that a policy names is the name of an attribute: not
/// empty, without white space at its start or its end, and without a comma.
pub proof fn lemma_policy_attributes_are_names(policy: Seq<char>)
    ensures
        forall|i: int|
            0 <= i < policy_attributes(policy).len() ==> is_attribute_name(
                #[trigger] policy_attributes(policy)[i],
            ),
    decreases policy.len(),
{
    let k = first_comma(policy);
    lemma_first_comma_bounds(policy);
    let entry = policy.subrange(0, k);
    let cut = trim_start(entry);
    let name = trimmed(entry);
    lemma_trim_start_is_suffix(entry);
    lemma_trim_end_is_prefix(cut);
    if name.len() > 0 {
        assert(name[0] == cut[0]);
        assert forall|j: int| 0 <= j < name.len() implies name[j] != ',' by {
            assert(name[j] == cut[j]);
            assert(cut[j] == entry[j + entry.len() - cut.len()]);
        }
        assert(is_attribute_name(name));
    }
    let named = if name.len() > 0 {
        seq![name]
    } else {
        Seq::empty()
    };
    if 0 <= k < policy.len() {
        let rest = policy_attributes(policy.subrange(k + 1, policy.len() as int));
        lemma_policy_attributes_are_names(policy.subrange(k + 1, policy.len() as int));
        assert(policy_attributes(policy) == named + rest);
        assert forall|i: int| 0 <= i < policy_attributes(policy).len() implies is_attribute_name(
            #[trigger] policy_attributes(policy)[i],
        ) by {
            if i < named.len() {
                assert(policy_attributes(policy)[i] == name);
            } else {
                assert(policy_attributes(policy)[i] == rest[i - named.len()]);
            }
        }
    } else {
        assert(policy_attributes(policy) == named);
    }
}

proof fn lemma_first_comma(s: Seq<char>, k: int)
    requires
        0 <= k <= s.len(),
        forall|j: int| 0 <= j < k ==> s[j] != ',',
        k == s.len() || s[k] == ',',
    ensures
        first_comma(s) == k,
    decreases k,
{
    if k > 0 {
        let rest = s.drop_first();
        assert(s[0] != ',');
        assert forall|j: int| 0 <= j < k - 1 implies rest[j] != ',' by {
            assert(rest[j] == s[j + 1]);
        }
        lemma_first_comma(rest, k - 1);
    }
}

proof fn lemma_trim_start(s: Seq<char>, a: int)
    requires
        0 <= a <= s.len(),
        forall|j: int| 0 <= j < a ==> is_white_space(s[j]),
        a == s.len() || !is_white_space(s[a]),
    ensures
        trim_start(s) == s.subrange(a, s.len() as int),
    decreases a,
{
    if a > 0 {
        let rest = s.drop_first();
        assert(is_white_space(s[0]));
        assert forall|j: int| 0 <= j < a - 1 implies is_white_space(rest[j]) by {
            assert(rest[j] == s[j + 1]);
        }
        lemma_trim_start(rest, a - 1);
        assert(rest.subrange(a - 1, rest.len() as int) =~= s.subrange(a, s.len() as int));
    } else {
        assert(s.subrange(0, s.len() as int) =~= s);
    }
}

proof fn lemma_trim_end(s: Seq<char>, b: int)
    requires
        0 <= b <= s.len(),
        forall|j: int| b <= j < s.len() ==> is_white_space(s[j]),
        b == 0 || !is_white_space(s[b - 1]),
    ensures
        trim_end(s) == s.subrange(0, b),
    decreases s.len() - b,
{
    if b < s.len() {
        let rest = s.drop_last();
        assert(is_white_space(s.last()));
        lemma_trim_end(rest, b);
        assert(rest.subrange(0, b) =~= s.subrange(0, b));
    } else {
        assert(s.subrange(0, s.len() as int) =~= s);
    }
}

/// The characters of `text`, one by one.
fn chars_of(text: &str) -> (chars: Vec<char>)
    ensures
        chars@ == text@,
{
    let n: usize = text.unicode_len();
    let mut chars: Vec<char> = Vec::with_capacity(n);
    let mut i: usize = 0;
    while i < n
        invariant
            n == text@.len(),
            i <= n,
            chars@ == text@.subrange(0, i as int),
        decreases n - i,
    {
        chars.push(text.get_char(i));
        assert(text@.subrange(0, i as int).push(text@[i as int]) =~= text@.subrange(0, i + 1));
        i = i + 1;
    }
    assert(text@.subrange(0, n as int) =~= text@);
    chars
}

/// The attributes that `policy` names, in order.
pub fn parse_policy(policy: &str) -> (attributes: Vec<String>)
    ensures
        names(attributes@) == policy_attributes(policy@),
{
    let chars = chars_of(policy);
    let n: usize = chars.len();
    let mut attributes: Vec<String> = Vec::new();
    let mut start: usize = 0;
    assert(policy@.subrange(0, n as int) =~= policy@);
    assert(names(attributes@) =~= Seq::<Seq<char>>::empty());
    loop
        invariant_except_break
            start <= n,
            policy_attributes(policy@) == names(attributes@) + policy_attributes(
                policy@.subrange(start as int, n as int),
            ),
        invariant
            n == policy@.len(),
            chars@ == policy@,
        ensures
            names(attributes@) == policy_attributes(policy@),
        decreases n - start,
    {
        let ghost rest = policy@.subrange(start as int, n as int);
        let ghost before = names(attributes@);
        let mut end: usize = start;
        while end < n && chars[end] != ','
            invariant
                n == chars@.len(),
                start <= end <= n,
                forall|j: int| start <= j < end ==> chars@[j] != ',',
            decreases n - end,
        {
            end = end + 1;
        }
        let mut from: usize = start;
        while from < end && is_space(chars[from])
            invariant
                n == chars@.len(),
                start <= from <= end <= n,
                forall|j: int| start <= j < from ==> is_white_space(chars@[j]),
            decreases end - from,
        {
            from = from + 1;
        }
        let mut to: usize = end;
        while to > from && is_space(chars[to - 1])
            invariant
                n == chars@.len(),
                from <= to <= end <= n,
                forall|j: int| to <= j < end ==> is_white_space(chars@[j]),
            decreases to,
        {
            to = to - 1;
        }
        proof {
            let entry = policy@.subrange(start as int, end as int);
            let cut = policy@.subrange(from as int, end as int);
            lemma_first_comma(rest, end - start);
            assert(rest.subrange(0, end - start) =~= entry);
            lemma_trim_start(entry, from - start);
            assert(entry.subrange(from - start, entry.len() as int) =~= cut);
            lemma_trim_end(cut, to - from);
            assert(cut.subrange(0, to - from) =~= policy@.subrange(from as int, to as int));
            assert(trimmed(entry) == policy@.subrange(from as int, to as int));
            if end < n {
                assert(rest.subrange(end - start + 1, rest.len() as int) =~= policy@.subrange(
                    end + 1,
                    n as int,
                ));
            }
        }
        if from < to {
            attributes.push(String::from_str(policy.substring_char(from, to)));
            assert(names(attributes@) =~= before + seq![policy@.subrange(from as int, to as int)]);
        }
        if end >= n {
            assert(policy_attributes(rest) == if from < to {
                seq![policy@.subrange(from as int, to as int)]
            } else {
                Seq::empty()
            });
            assert(names(attributes@) =~= policy_attributes(policy@));
            break ;
        }
        proof {
            let next = policy@.subrange(end + 1, n as int);
            let named = if from < to {
                seq![policy@.subrange(from as int, to as int)]
            } else {
                Seq::empty()
            };
            assert(policy_attributes(rest) == named + policy_attributes(next));
            assert(names(attributes@) + policy_attributes(next) =~= before + (named
                + policy_attributes(next)));
        }
        start = end + 1;
    }
    attributes
}

} // verus!
