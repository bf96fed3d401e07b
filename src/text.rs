//! Character-level text helpers: markup stripping (the sanitiser policy) and
//! substring search.
use vstd::prelude::*;
use vstd::std_specs::iter::IteratorSpec;

verus! {

/// Where the sanitiser stands while it reads markup.
#[derive(Clone, Copy, Debug, PartialEq, Eq, Structural)]
pub enum Mode {
    /// Ordinary text, which is kept.
    Text,
    /// Inside a tag.
    Tag,
    /// Inside the opening tag of a script (`true`) or style element.
    RawOpen(bool),
    /// Inside the body of a script (`true`) or style element.
    Raw(bool),
}

/// `s` starts with `lo`, each character matched in either of its two cases
/// (`lo` or `up`).
pub open spec fn starts_ci(s: Seq<char>, lo: Seq<char>, up: Seq<char>) -> bool {
    &&& lo.len() == up.len()
    &&& lo.len() <= s.len()
    &&& forall|i: int| 0 <= i < lo.len() ==> s[i] == lo[i] || s[i] == up[i]
}

/// `s` starts with the opening tag of a script (`true`) or style element.
pub open spec fn raw_opens(s: Seq<char>, script: bool) -> bool {
    if script {
        starts_ci(s, "<script"@, "<SCRIPT"@)
    } else {
        starts_ci(s, "<style"@, "<STYLE"@)
    }
}

/// `s` starts with the closing tag of a script (`true`) or style element.
pub open spec fn raw_closes(s: Seq<char>, script: bool) -> bool {
    if script {
        starts_ci(s, "</script"@, "</SCRIPT"@)
    } else {
        starts_ci(s, "</style"@, "</STYLE"@)
    }
}

/// The text of `s` read from `mode`: every tag is removed, and so is the
/// body of every script and style element. A tag runs from `<` to the next
/// `>`; an unterminated tag or element runs to the end of the text.
pub open spec fn strip_from(s: Seq<char>, mode: Mode) -> Seq<char>
    decreases s.len(),
{
    if s.len() == 0 {
        Seq::empty()
    } else {
        let c = s[0];
        let rest = s.subrange(1, s.len() as int);
        match mode {
            Mode::Text => if c == '<' {
                if raw_opens(s, true) {
                    strip_from(rest, Mode::RawOpen(true))
                } else if raw_opens(s, false) {
                    strip_from(rest, Mode::RawOpen(false))
                } else {
                    strip_from(rest, Mode::Tag)
                }
            } else {
                seq![c] + strip_from(rest, Mode::Text)
            },
            Mode::Tag => strip_from(rest, if c == '>' { Mode::Text } else { Mode::Tag }),
            Mode::RawOpen(k) => strip_from(rest, if c == '>' { Mode::Raw(k) } else { Mode::RawOpen(k) }),
            Mode::Raw(k) => if raw_closes(s, k) {
                strip_from(rest, Mode::Tag)
            } else {
                strip_from(rest, Mode::Raw(k))
            },
        }
    }
}

/// The sanitised text of `s`: no tags, no script or style bodies.
pub open spec fn strip_markup(s: Seq<char>) -> Seq<char> {
    strip_from(s, Mode::Text)
}

pub open spec fn has_no_open_tag(s: Seq<char>) -> bool {
    forall|i: int| 0 <= i < s.len() ==> s[i] != '<'
}

/// `n` occurs in `h` as a contiguous run of characters.
pub open spec fn occurs_in(h: Seq<char>, n: Seq<char>) -> bool {
    exists|i: int| 0 <= i && i + n.len() <= h.len() && #[trigger] h.subrange(i, i + n.len()) == n
}

/// The characters of `s`, in order.
pub(crate) fn chars_of(s: &str) -> (r: Vec<char>)
    ensures
        r@ == s@,
{
    broadcast use vstd::string::group_string_axioms;

    let mut it = s.chars();
    let mut out: Vec<char> = Vec::new();
    loop
        invariant
            it.obeys_prophetic_iter_laws(),
            it.decrease() is Some,
            out@ + it.remaining() == s@,
        ensures
            out@ == s@,
        decreases it.decrease()->0,
    {
        match it.next() {
            Some(c) => {
                let ghost rest = it.remaining();
                out.push(c);
                assert(out@ + rest =~= s@);
            },
            None => {
                assert(out@ =~= s@);
                break;
            },
        }
    }
    out
}

/// Relies on `String::from_iter` over chars: the string of exactly these characters.
#[verifier::external_body]
pub(crate) fn string_of(cs: &Vec<char>) -> (r: String)
    ensures
        r@ == cs@,
{
    cs.iter().collect()
}

proof fn lemma_strip_no_open_tag(s: Seq<char>, mode: Mode)
    ensures
        has_no_open_tag(strip_from(s, mode)),
    decreases s.len(),
{
    if s.len() > 0 {
        let rest = s.subrange(1, s.len() as int);
        lemma_strip_no_open_tag(rest, Mode::Text);
        lemma_strip_no_open_tag(rest, Mode::Tag);
        lemma_strip_no_open_tag(rest, Mode::RawOpen(true));
        lemma_strip_no_open_tag(rest, Mode::RawOpen(false));
        lemma_strip_no_open_tag(rest, Mode::Raw(true));
        lemma_strip_no_open_tag(rest, Mode::Raw(false));
        if mode == Mode::Text && s[0] != '<' {
            let t = strip_from(rest, Mode::Text);
            assert forall|i: int| 0 <= i < (seq![s[0]] + t).len() implies (seq![s[0]] + t)[i] != '<' by {
                if i > 0 {
                    assert((seq![s[0]] + t)[i] == t[i - 1]);
                }
            }
        }
    }
}

proof fn lemma_strip_plain_identity(s: Seq<char>)
    requires
        has_no_open_tag(s),
    ensures
        strip_from(s, Mode::Text) == s,
    decreases s.len(),
{
    if s.len() > 0 {
        let rest = s.subrange(1, s.len() as int);
        assert(has_no_open_tag(rest)) by {
            assert forall|i: int| 0 <= i < rest.len() implies rest[i] != '<' by {
                assert(rest[i] == s[i + 1]);
            }
        }
        lemma_strip_plain_identity(rest);
        assert(s =~= seq![s[0]] + rest);
    }
}

/// Sanitising twice gives what sanitising once gives.
pub proof fn lemma_strip_idempotent(s: Seq<char>)
    ensures
        strip_markup(strip_markup(s)) == strip_markup(s),
{
    lemma_strip_no_open_tag(s, Mode::Text);
    lemma_strip_plain_identity(strip_markup(s));
}

fn starts_ci_at(cs: &Vec<char>, i: usize, lo: &Vec<char>, up: &Vec<char>) -> (r: bool)
    requires
        i <= cs.len(),
    ensures
        r == starts_ci(cs@.subrange(i as int, cs.len() as int), lo@, up@),
{
    let ghost t = cs@.subrange(i as int, cs.len() as int);
    if lo.len() != up.len() || lo.len() > cs.len() - i {
        return false;
    }
    let mut j: usize = 0;
    while j < lo.len()
        invariant
            i <= cs.len(),
            lo.len() == up.len(),
            lo.len() <= cs.len() - i,
            t == cs@.subrange(i as int, cs.len() as int),
            j <= lo.len(),
            forall|k: int| 0 <= k < j ==> t[k] == lo@[k] || t[k] == up@[k],
        decreases lo.len() - j,
    {
        let c = cs[i + j];
        assert(t[j as int] == c);
        if c != lo[j] && c != up[j] {
            return false;
        }
        j = j + 1;
    }
    true
}

/// Removes every markup tag from `s`, and the body of every script and
/// style element, keeping the text between them.
pub fn sanitise_text(s: &str) -> (r: String)
    ensures
        r@ == strip_markup(s@),
{
    let cs = chars_of(s);
    let script_open = (chars_of("<script"), chars_of("<SCRIPT"));
    let style_open = (chars_of("<style"), chars_of("<STYLE"));
    let script_close = (chars_of("</script"), chars_of("</SCRIPT"));
    let style_close = (chars_of("</style"), chars_of("</STYLE"));
    let mut out: Vec<char> = Vec::new();
    let mut mode = Mode::Text;
    let mut i: usize = 0;
    assert(cs@.subrange(0, cs.len() as int) =~= cs@);
    assert(out@ + strip_markup(s@) =~= strip_markup(s@));
    while i < cs.len()
        invariant
            cs@ == s@,
            script_open.0@ == "<script"@ && script_open.1@ == "<SCRIPT"@,
            style_open.0@ == "<style"@ && style_open.1@ == "<STYLE"@,
            script_close.0@ == "</script"@ && script_close.1@ == "</SCRIPT"@,
            style_close.0@ == "</style"@ && style_close.1@ == "</STYLE"@,
            i <= cs.len(),
            out@ + strip_from(cs@.subrange(i as int, cs.len() as int), mode) == strip_markup(s@),
        decreases cs.len() - i,
    {
        let c = cs[i];
        let ghost tail = cs@.subrange(i as int, cs.len() as int);
        assert(tail.subrange(1, tail.len() as int) =~= cs@.subrange(i + 1, cs.len() as int));
        match mode {
            Mode::Text => {
                if c == '<' {
                    if starts_ci_at(&cs, i, &script_open.0, &script_open.1) {
                        mode = Mode::RawOpen(true);
                    } else if starts_ci_at(&cs, i, &style_open.0, &style_open.1) {
                        mode = Mode::RawOpen(false);
                    } else {
                        mode = Mode::Tag;
                    }
                } else {
                    let ghost before = out@;
                    out.push(c);
                    assert(before + (seq![c] + strip_from(tail.subrange(1, tail.len() as int), Mode::Text))
                        =~= out@ + strip_from(tail.subrange(1, tail.len() as int), Mode::Text));
                }
            },
            Mode::Tag => {
                if c == '>' {
                    mode = Mode::Text;
                }
            },
            Mode::RawOpen(k) => {
                if c == '>' {
                    mode = Mode::Raw(k);
                }
            },
            Mode::Raw(k) => {
                let closes = if k {
                    starts_ci_at(&cs, i, &script_close.0, &script_close.1)
                } else {
                    starts_ci_at(&cs, i, &style_close.0, &style_close.1)
                };
                if closes {
                    mode = Mode::Tag;
                }
            },
        }
        i = i + 1;
    }
    assert(cs@.subrange(i as int, cs.len() as int) =~= Seq::<char>::empty());
    assert(out@ + Seq::<char>::empty() =~= out@);
    string_of(&out)
}

fn matches_at(h: &Vec<char>, n: &Vec<char>, i: usize) -> (r: bool)
    requires
        i + n.len() <= h.len(),
    ensures
        r == (h@.subrange(i as int, i + n.len()) == n@),
{
    let mut j: usize = 0;
    while j < n.len()
        invariant
            i + n.len() <= h.len(),
            j <= n.len(),
            forall|k: int| 0 <= k < j ==> h@[i + k] == n@[k],
        decreases n.len() - j,
    {
        if h[i + j] != n[j] {
            assert(h@.subrange(i as int, i + n.len())[j as int] != n@[j as int]);
            return false;
        }
        j = j + 1;
    }
    assert(h@.subrange(i as int, i + n.len()) =~= n@);
    true
}

/// Whether the two character sequences are equal.
pub(crate) fn same_chars(a: &Vec<char>, b: &Vec<char>) -> (r: bool)
    ensures
        r == (a@ == b@),
{
    if a.len() != b.len() {
        return false;
    }
    assert(a@.subrange(0, b.len() as int) =~= a@);
    matches_at(a, b, 0)
}

/// Whether the two texts are equal.
pub fn text_eq(a: &str, b: &str) -> (r: bool)
    ensures
        r == (a@ == b@),
{
    let x = chars_of(a);
    let y = chars_of(b);
    same_chars(&x, &y)
}

/// Whether `needle` occurs in `haystack`.
pub fn text_contains(haystack: &str, needle: &str) -> (r: bool)
    ensures
        r == occurs_in(haystack@, needle@),
{
    let h = chars_of(haystack);
    let n = chars_of(needle);
    if n.len() > h.len() {
        return false;
    }
    let mut i: usize = 0;
    while i <= h.len() - n.len()
        invariant
            h@ == haystack@,
            n@ == needle@,
            n.len() <= h.len(),
            i <= h.len() - n.len() + 1,
            forall|k: int| 0 <= k < i ==> #[trigger] h@.subrange(k, k + n.len()) != n@,
        decreases h.len() - n.len() + 1 - i,
    {
        if matches_at(&h, &n, i) {
            return true;
        }
        if i == h.len() - n.len() {
            return false;
        }
        i = i + 1;
    }
    false
}

} // verus!
