use vstd::prelude::*;
use crate::broker::starts_with;
use crate::broker::has_prefix;

verus! {

#[verifier::external_type_specification]
pub struct ExLevel(log::Level);

/// The name that `log` gives each severity.
pub open spec fn level_label(l: log::Level) -> Seq<char> {
    match l {
        log::Level::Error => seq!['E', 'R', 'R', 'O', 'R'],
        log::Level::Warn => seq!['W', 'A', 'R', 'N'],
        log::Level::Info => seq!['I', 'N', 'F', 'O'],
        log::Level::Debug => seq!['D', 'E', 'B', 'U', 'G'],
        log::Level::Trace => seq!['T', 'R', 'A', 'C', 'E'],
    }
}

/// Relies on log::Level::as_str: the upper-case name of the severity.
pub assume_specification[ log::Level::as_str ](l: &log::Level) -> (r: &'static str)
    ensures
        r@ == level_label(*l),
;

/// The placeholder that a topic template may hold.
pub open spec fn placeholder() -> Seq<char> {
    seq!['{', 'l', 'e', 'v', 'e', 'l', '}']
}

pub open spec fn lower_char(c: char) -> char {
    if 'A' <= c && c <= 'Z' {
        ((c as u32) + 32) as char
    } else {
        c
    }
}

/// `s` with each ASCII capital replaced by its small letter.
pub open spec fn ascii_lower(s: Seq<char>) -> Seq<char> {
    Seq::new(s.len(), |i: int| lower_char(s[i]))
}

/// Relies on str::to_ascii_lowercase: ASCII capitals become small letters,
/// every other character stays.
#[verifier::external_body]
fn to_ascii_lower(s: &str) -> (r: String)
    ensures
        r@ == ascii_lower(s@),
{
    s.to_ascii_lowercase()
}

/// The severity name as it stands in topics.
pub open spec fn level_name(l: log::Level) -> Seq<char> {
    ascii_lower(level_label(l))
}

/// The severity names in topics are the lower-case words error, warn, info,
/// debug and trace.
pub proof fn lemma_level_names()
    ensures
        level_name(log::Level::Error) == seq!['e', 'r', 'r', 'o', 'r'],
        level_name(log::Level::Warn) == seq!['w', 'a', 'r', 'n'],
        level_name(log::Level::Info) == seq!['i', 'n', 'f', 'o'],
        level_name(log::Level::Debug) == seq!['d', 'e', 'b', 'u', 'g'],
        level_name(log::Level::Trace) == seq!['t', 'r', 'a', 'c', 'e'],
{
    assert(level_name(log::Level::Error) =~= seq!['e', 'r', 'r', 'o', 'r']);
    assert(level_name(log::Level::Warn) =~= seq!['w', 'a', 'r', 'n']);
    assert(level_name(log::Level::Info) =~= seq!['i', 'n', 'f', 'o']);
    assert(level_name(log::Level::Debug) =~= seq!['d', 'e', 'b', 'u', 'g']);
    assert(level_name(log::Level::Trace) =~= seq!['t', 'r', 'a', 'c', 'e']);
}

/// Whatever the severity, the name put into a topic holds no capital letter,
/// and a template without the placeholder is the topic for every severity.
pub proof fn lemma_topic_lowercase(t: Seq<char>, l: log::Level)
    ensures
        forall|i: int|
            0 <= i < level_name(l).len() ==> !('A' <= #[trigger] level_name(l)[i] && level_name(l)[i] <= 'Z'),
        find_from(t, placeholder(), 0) is None ==> resolve(t, level_name(l)) == t,
{
    lemma_level_names();
}

/// Whether `p` occurs in `t` at `i`.
pub open spec fn occurs_at(t: Seq<char>, p: Seq<char>, i: int) -> bool {
    0 <= i && i + p.len() <= t.len() && t.subrange(i, i + p.len()) == p
}

/// First position at or after `k` where `p` occurs in `t`.
pub open spec fn find_from(t: Seq<char>, p: Seq<char>, k: int) -> Option<int>
    decreases t.len() - k,
{
    if k < 0 || k >= t.len() || k + p.len() > t.len() {
        None
    } else if occurs_at(t, p, k) {
        Some(k)
    } else {
        find_from(t, p, k + 1)
    }
}

/// The topic for a template and a severity name: the first placeholder is
/// replaced by the name; a template without one is the topic as it stands.
pub open spec fn resolve(t: Seq<char>, name: Seq<char>) -> Seq<char> {
    match find_from(t, placeholder(), 0) {
        Some(i) => t.subrange(0, i) + name + t.subrange(i + placeholder().len(), t.len() as int),
        None => t,
    }
}

fn find_placeholder(t: &str) -> (r: Option<usize>)
    ensures
        r matches Some(i) ==> find_from(t@, placeholder(), 0) == Some(i as int) && i + 7 <= t@.len(),
        r is None ==> find_from(t@, placeholder(), 0) is None,
{
    proof {
        reveal_strlit("{level}");
        assert("{level}"@ =~= placeholder());
    }
    let n = t.unicode_len();
    let mut k: usize = 0;
    while 7 <= n - k
        invariant
            "{level}"@ == placeholder(),
            n == t@.len(),
            k <= n,
            find_from(t@, placeholder(), 0) == find_from(t@, placeholder(), k as int),
        decreases n - k,
    {
        let rest = t.substring_char(k, n);
        if has_prefix(rest, "{level}") {
            assert(rest@.subrange(0, 7) =~= t@.subrange(k as int, k + 7));
            return Some(k);
        }
        assert(rest@.subrange(0, 7) =~= t@.subrange(k as int, k + 7));
        k = k + 1;
    }
    None
}

/// Topic for a record of severity `level`: the first `{level}` in the
/// template becomes the severity's lower-case name.
pub fn resolve_topic(template: &str, level: log::Level) -> (r: String)
    ensures
        r@ == resolve(template@, level_name(level)),
{
    match find_placeholder(template) {
        Some(i) => {
            let n = template.unicode_len();
            let name = to_ascii_lower(level.as_str());
            let mut r = template.substring_char(0, i).to_owned();
            r.append(name.as_str());
            r.append(template.substring_char(i + 7, n));
            r
        },
        None => template.to_owned(),
    }
}

} // verus!
