//! Command templates and the `{path}` placeholder.
use vstd::prelude::*;

verus! {

/// The placeholder that a command template uses for the changed path.
pub open spec fn token() -> Seq<char> {
    seq!['{', 'p', 'a', 't', 'h', '}']
}

/// The placeholder starts at position `i` of `t`.
pub open spec fn token_at(t: Seq<char>, i: int) -> bool {
    0 <= i && i + 6 <= t.len() && t.subrange(i, i + 6) == token()
}

/// `t` from position `i` on, with each placeholder replaced by `p`, read
/// from the left so that replaced text is never read again.
pub open spec fn substitute_from(t: Seq<char>, p: Seq<char>, i: int) -> Seq<char>
    decreases t.len() - i,
{
    if i < 0 || i >= t.len() {
        seq![]
    } else if token_at(t, i) {
        p + substitute_from(t, p, i + 6)
    } else {
        seq![t[i]] + substitute_from(t, p, i + 1)
    }
}

/// The command text of template `t` for the changed path `p`.
pub open spec fn substitute(t: Seq<char>, p: Seq<char>) -> Seq<char> {
    substitute_from(t, p, 0)
}

/// Whether the placeholder starts at character position `i` of `t`.
fn has_token_at(t: &str, n: usize, i: usize) -> (r: bool)
    requires
        n == t@.len(),
        i <= n,
    ensures
        r == token_at(t@, i as int),
{
    if n - i < 6 {
        return false;
    }
    let ok = t.get_char(i) == '{' && t.get_char(i + 1) == 'p' && t.get_char(i + 2) == 'a'
        && t.get_char(i + 3) == 't' && t.get_char(i + 4) == 'h' && t.get_char(i + 5) == '}';
    if ok {
        assert(t@.subrange(i as int, i + 6) =~= token());
    } else {
        assert(t@.subrange(i as int, i + 6) != token()) by {
            let s = t@.subrange(i as int, i + 6);
            if s == token() {
                assert(s[0] == '{' && s[1] == 'p' && s[2] == 'a');
                assert(s[3] == 't' && s[4] == 'h' && s[5] == '}');
            }
        }
    }
    ok
}

/// The command text of `template` with every `{path}` replaced by `path`;
/// a template without the placeholder comes back unchanged.
pub fn substitute_path(template: &str, path: &str) -> (r: String)
    ensures
        r@ == substitute(template@, path@),
{
    let n = template.unicode_len();
    let mut out = String::new();
    let mut start: usize = 0;
    let mut i: usize = 0;
    while i < n
        invariant
            n == template@.len(),
            start <= i <= n,
            out@ + template@.subrange(start as int, i as int) + substitute_from(
                template@,
                path@,
                i as int,
            ) == substitute(template@, path@),
        decreases n - i,
    {
        let ghost rest_before = substitute_from(template@, path@, i as int);
        if has_token_at(template, n, i) {
            let ghost prev = out@;
            let ghost pending = template@.subrange(start as int, i as int);
            let piece = template.substring_char(start, i);
            out.append(piece);
            out.append(path);
            assert(rest_before == path@ + substitute_from(template@, path@, i + 6));
            assert(out@ =~= prev + pending + path@);
            assert(template@.subrange(i + 6, i + 6) =~= Seq::<char>::empty());
            assert(out@ + template@.subrange(i + 6, i + 6) + substitute_from(
                template@,
                path@,
                i + 6,
            ) =~= prev + pending + rest_before);
            start = i + 6;
            i = i + 6;
        } else {
            let ghost c = template@[i as int];
            assert(rest_before == seq![c] + substitute_from(template@, path@, i + 1));
            assert(template@.subrange(start as int, i + 1) =~= template@.subrange(
                start as int,
                i as int,
            ) + seq![c]);
            i = i + 1;
        }
    }
    let tail = template.substring_char(start, n);
    out.append(tail);
    assert(out@ =~= substitute(template@, path@));
    out
}

/// A template without the placeholder yields its own text as the command,
/// whatever the path.
pub proof fn lemma_no_token_unchanged(t: Seq<char>, p: Seq<char>)
    requires
        forall|i: int| !token_at(t, i),
    ensures
        substitute(t, p) == t,
{
    lemma_no_token_from(t, p, 0);
    assert(t.subrange(0, t.len() as int) =~= t);
}

proof fn lemma_no_token_from(t: Seq<char>, p: Seq<char>, i: int)
    requires
        0 <= i <= t.len(),
        forall|j: int| !token_at(t, j),
    ensures
        substitute_from(t, p, i) == t.subrange(i, t.len() as int),
    decreases t.len() - i,
{
    if i < t.len() {
        lemma_no_token_from(t, p, i + 1);
        assert(seq![t[i]] + t.subrange(i + 1, t.len() as int) =~= t.subrange(i, t.len() as int));
    } else {
        assert(t.subrange(i, t.len() as int) =~= Seq::<char>::empty());
    }
}

} // verus!
