//! The shape of a service name: `_service._proto.domain`, in ASCII, with an
//! optional dot at the end.

use vstd::prelude::*;

verus! {

/// The longest label a name may hold.
pub const MAX_LABEL_LEN: usize = 63;

/// The longest name, not counting the dot at its end.
pub const MAX_NAME_LEN: usize = 253;

/// Whether `c` may stand in a label: an ASCII letter of either case, a digit,
/// a hyphen or an underscore.
pub open spec fn is_label_char(c: char) -> bool {
    ||| 'a' <= c <= 'z'
    ||| 'A' <= c <= 'Z'
    ||| '0' <= c <= '9'
    ||| c == '-'
    ||| c == '_'
}

/// The first `n` characters of `s`, split at the dots. A dot opens a new
/// label, any other character extends the last one; so there is always one
/// label more than there are dots.
pub open spec fn labels_in(s: Seq<char>, n: int) -> Seq<Seq<char>>
    decreases n,
{
    if n <= 0 {
        seq![Seq::empty()]
    } else {
        let before = labels_in(s, n - 1);
        if s[n - 1] == '.' {
            before.push(Seq::empty())
        } else {
            before.update(before.len() - 1, before.last().push(s[n - 1]))
        }
    }
}

/// `s` split at the dots.
pub open spec fn labels(s: Seq<char>) -> Seq<Seq<char>> {
    labels_in(s, s.len() as int)
}

/// `s` without the dot at its end, where it has one.
pub open spec fn without_root(s: Seq<char>) -> Seq<char> {
    if s.len() > 0 && s.last() == '.' {
        s.drop_last()
    } else {
        s
    }
}

/// Whether every character of `l` may stand in a label.
pub open spec fn all_label_chars(l: Seq<char>) -> bool {
    forall|i: int| 0 <= i < l.len() ==> is_label_char(#[trigger] l[i])
}

/// Whether `l` is a label: between one and 63 label characters.
pub open spec fn is_label(l: Seq<char>) -> bool {
    1 <= l.len() <= MAX_LABEL_LEN && all_label_chars(l)
}

/// Whether `l` is a label that names a service or a protocol: an underscore
/// followed by at least one more character.
pub open spec fn is_service_label(l: Seq<char>) -> bool {
    is_label(l) && l.len() >= 2 && l[0] == '_'
}

/// What is asked of the label at position `i` of a name.
pub open spec fn label_fits(i: int, l: Seq<char>) -> bool {
    if i < 2 {
        is_service_label(l)
    } else {
        is_label(l)
    }
}

/// Whether `s` is a service name: at most 253 characters before the optional
/// dot at the end, at least three labels, the first two of them service labels.
pub open spec fn is_service_name(s: Seq<char>) -> bool {
    let body = without_root(s);
    &&& body.len() <= MAX_NAME_LEN
    &&& labels(body).len() >= 3
    &&& forall|i: int| 0 <= i < labels(body).len() ==> label_fits(i, #[trigger] labels(body)[i])
}

/// Whether `l` can still grow into a label that fits position `i`.
pub open spec fn label_may_fit(i: int, l: Seq<char>) -> bool {
    &&& l.len() <= MAX_LABEL_LEN
    &&& all_label_chars(l)
    &&& i < 2 && l.len() >= 1 ==> l[0] == '_'
}

/// Whether `c` may stand in a label.
pub fn label_char(c: char) -> (b: bool)
    ensures
        b == is_label_char(c),
{
    ('a' <= c && c <= 'z') || ('A' <= c && c <= 'Z') || ('0' <= c && c <= '9') || c == '-' || c
        == '_'
}

/// Whether `name` is a service name.
pub fn check_service_name(name: &str) -> (b: bool)
    ensures
        b == is_service_name(name@),
{
    let len = name.unicode_len();
    if len == 0 {
        assert(labels(name@) =~= seq![Seq::<char>::empty()]);
        return false;
    }
    let n: usize = if name.get_char(len - 1) == '.' {
        len - 1
    } else {
        len
    };
    let ghost body = without_root(name@);
    if n > MAX_NAME_LEN {
        return false;
    }
    let mut closed: usize = 0;
    let mut open_len: usize = 0;
    let mut fits = true;
    let mut i: usize = 0;
    while i < n
        invariant
            i <= n,
            n == body.len(),
            body == without_root(name@),
            n <= name@.len(),
            closed + 1 == labels_in(body, i as int).len(),
            open_len == labels_in(body, i as int).last().len(),
            closed <= i,
            open_len <= i,
            fits <==> {
                &&& forall|j: int| 0 <= j < closed ==> label_fits(j, #[trigger] labels_in(body, i as int)[j])
                &&& label_may_fit(closed as int, labels_in(body, i as int).last())
            },
        decreases n - i,
    {
        let c = name.get_char(i);
        let ghost before = labels_in(body, i as int);
        let ghost after = labels_in(body, i + 1);
        assert(body[i as int] == c);
        if c == '.' {
            fits = fits && open_len >= 1 && (closed >= 2 || open_len >= 2);
            proof {
                assert(after == before.push(Seq::<char>::empty()));
                assert forall|j: int| 0 <= j < closed implies after[j] == before[j] by {}
                assert(after[closed as int] == before.last());
            }
            closed += 1;
            open_len = 0;
        } else {
            let grown = label_char(c) && open_len < MAX_LABEL_LEN && (closed >= 2 || open_len > 0 || c == '_');
            proof {
                let l = before.last();
                assert(after == before.update(before.len() - 1, l.push(c)));
                assert forall|j: int| 0 <= j < closed implies after[j] == before[j] by {}
                assert(after.last() == l.push(c));
                if label_may_fit(closed as int, l) && grown {
                    assert forall|k: int| 0 <= k < l.push(c).len() implies is_label_char(
                        #[trigger] l.push(c)[k],
                    ) by {
                        if k < l.len() {
                            assert(l.push(c)[k] == l[k]);
                        }
                    }
                }
                if label_may_fit(closed as int, l.push(c)) {
                    assert forall|k: int| 0 <= k < l.len() implies is_label_char(#[trigger] l[k]) by {
                        assert(l.push(c)[k] == l[k]);
                    }
                    assert(l.push(c)[l.len() as int] == c);
                    if l.len() >= 1 {
                        assert(l.push(c)[0] == l[0]);
                    }
                }
            }
            fits = fits && grown;
            open_len += 1;
        }
        i += 1;
    }
    fits && closed >= 2 && open_len >= 1
}

/// A prefix has one label more than it has dots, so no more labels than
/// characters and one.
proof fn lemma_label_count(s: Seq<char>, n: int)
    requires
        0 <= n <= s.len(),
    ensures
        1 <= labels_in(s, n).len() <= n + 1,
    decreases n,
{
    if n > 0 {
        lemma_label_count(s, n - 1);
    }
}

/// Every character among the first `n` of `s` that is no dot stands in one
/// of the labels of that prefix.
proof fn lemma_char_is_in_a_label(s: Seq<char>, n: int, k: int) -> (at: (int, int))
    requires
        0 <= k < n <= s.len(),
        s[k] != '.',
    ensures
        0 <= at.0 < labels_in(s, n).len(),
        0 <= at.1 < labels_in(s, n)[at.0].len(),
        labels_in(s, n)[at.0][at.1] == s[k],
    decreases n,
{
    let before = labels_in(s, n - 1);
    lemma_label_count(s, n - 1);
    if k == n - 1 {
        (before.len() - 1, before.last().len() as int)
    } else {
        lemma_char_is_in_a_label(s, n - 1, k)
    }
}

/// A service name is not empty and holds nothing but label characters and
/// dots: no blank, no control character, no NUL, nothing outside ASCII.
pub proof fn lemma_service_name_is_plain(s: Seq<char>)
    requires
        is_service_name(s),
    ensures
        s.len() > 0,
        forall|k: int| 0 <= k < s.len() ==> s[k] == '.' || is_label_char(#[trigger] s[k]),
{
    let body = without_root(s);
    lemma_label_count(body, body.len() as int);
    assert forall|k: int| 0 <= k < s.len() implies s[k] == '.' || is_label_char(
        #[trigger] s[k],
    ) by {
        if s[k] != '.' {
            assert(k < body.len() && body[k] == s[k]);
            let at = lemma_char_is_in_a_label(body, body.len() as int, k);
            assert(label_fits(at.0, labels(body)[at.0]));
        }
    }
}

} // verus!
