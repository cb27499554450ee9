//! Slash-separated paths: permalinks, request paths and server paths.
//!
//! A path is text. Its meaning is its list of components: the pieces between
//! `/`, without the empty ones and without `.`. Repeated and trailing
//! separators therefore never matter, and `..` is an ordinary component that
//! only lexical cleaning resolves.

use crate::text::{
    chars_of, extend_chars, same_chars, string_of, string_views, tail_from, views,
};
use lexiclean::Lexiclean;
use path_slash::PathExt;
use vstd::prelude::*;

verus! {

/// The pieces of `s` between separators, empty pieces included. A text
/// without a separator is one piece.
pub open spec fn path_split(s: Seq<char>) -> Seq<Seq<char>>
    decreases s.len(),
{
    if s.len() == 0 {
        seq![Seq::<char>::empty()]
    } else {
        let init = path_split(s.drop_last());
        if s.last() == '/' {
            init.push(Seq::<char>::empty())
        } else {
            init.drop_last().push(init.last().push(s.last()))
        }
    }
}

/// A piece that counts as a component: not empty and not `.`.
pub open spec fn is_component(piece: Seq<char>) -> bool {
    piece.len() > 0 && !(piece.len() == 1 && piece[0] == '.')
}

/// The pieces of `pieces` that are components, in order.
pub open spec fn kept_pieces(pieces: Seq<Seq<char>>) -> Seq<Seq<char>>
    decreases pieces.len(),
{
    if pieces.len() == 0 {
        Seq::<Seq<char>>::empty()
    } else if is_component(pieces.last()) {
        kept_pieces(pieces.drop_last()).push(pieces.last())
    } else {
        kept_pieces(pieces.drop_last())
    }
}

/// The components of the path `s`.
pub open spec fn path_components(s: Seq<char>) -> Seq<Seq<char>> {
    kept_pieces(path_split(s))
}

/// A path is absolute when it begins with a separator.
pub open spec fn path_is_absolute(s: Seq<char>) -> bool {
    s.len() > 0 && s[0] == '/'
}

/// The text that stands before the first component: `/` or nothing.
pub open spec fn path_root(absolute: bool) -> Seq<char> {
    if absolute {
        seq!['/']
    } else {
        Seq::<char>::empty()
    }
}

/// The normal spelling of a path: the root, then the components with one
/// separator between neighbours.
pub open spec fn path_spelled(absolute: bool, comps: Seq<Seq<char>>) -> Seq<char>
    decreases comps.len(),
{
    if comps.len() == 0 {
        path_root(absolute)
    } else if comps.len() == 1 {
        path_root(absolute) + comps[0]
    } else {
        path_spelled(absolute, comps.drop_last()) + seq!['/'] + comps.last()
    }
}

/// `.` followed by `.`, the component that names the parent directory.
pub open spec fn is_parent_piece(piece: Seq<char>) -> bool {
    piece.len() == 2 && piece[0] == '.' && piece[1] == '.'
}

/// The file name of a path: its last component, unless that is `..`.
pub open spec fn path_file_name(s: Seq<char>) -> Option<Seq<char>> {
    let comps = path_components(s);
    if comps.len() == 0 || is_parent_piece(comps.last()) {
        None
    } else {
        Some(comps.last())
    }
}

/// The index of the last `c` in `s`, or -1 where there is none.
pub open spec fn last_index_of(s: Seq<char>, c: char) -> int
    decreases s.len(),
{
    if s.len() == 0 {
        -1
    } else if s.last() == c {
        s.len() - 1
    } else {
        last_index_of(s.drop_last(), c)
    }
}

/// The extension of a file name: what follows its last `.`, provided that
/// `.` is not the name's first character.
pub open spec fn name_extension(name: Seq<char>) -> Option<Seq<char>> {
    let dot = last_index_of(name, '.');
    if dot <= 0 {
        None
    } else {
        Some(name.subrange(dot + 1, name.len() as int))
    }
}

/// The extension of a path: that of its file name.
pub open spec fn path_extension(s: Seq<char>) -> Option<Seq<char>> {
    match path_file_name(s) {
        Some(name) => name_extension(name),
        None => None,
    }
}

/// `rel` resolved against `base`: an absolute `rel` stands alone; otherwise
/// it follows `base`, with a separator between them where `base` does not
/// already end in one.
pub open spec fn path_joined(base: Seq<char>, rel: Seq<char>) -> Seq<char> {
    if path_is_absolute(rel) {
        rel
    } else if base.len() == 0 || base.last() == '/' {
        base + rel
    } else {
        base + seq!['/'] + rel
    }
}

/// The ancestor of `s` that keeps its first `k` components.
pub open spec fn path_ancestor(s: Seq<char>, k: int) -> Seq<char> {
    path_spelled(path_is_absolute(s), path_components(s).take(k))
}

/// The proper ancestors of `s`, nearest first: one for each component,
/// ending with the bare root.
pub open spec fn path_ancestors(s: Seq<char>) -> Seq<Seq<char>> {
    let n = path_components(s).len() as int;
    Seq::new(n as nat, |j: int| path_ancestor(s, n - 1 - j))
}

/// `comps` begins with `head`.
pub open spec fn begins_with(comps: Seq<Seq<char>>, head: Seq<Seq<char>>) -> bool {
    head.len() <= comps.len() && comps.take(head.len() as int) == head
}

/// `p` is `base` or lies below it: both are absolute or both relative, and
/// the components of `p` begin with those of `base`.
pub open spec fn path_within(p: Seq<char>, base: Seq<char>) -> bool {
    path_is_absolute(p) == path_is_absolute(base) && begins_with(
        path_components(p),
        path_components(base),
    )
}

/// `p` lies strictly below `base`.
pub open spec fn path_strictly_within(p: Seq<char>, base: Seq<char>) -> bool {
    path_within(p, base) && path_components(base).len() < path_components(p).len()
}

/// What remains of `p` after `base`, as a relative path.
pub open spec fn path_relative_to(p: Seq<char>, base: Seq<char>) -> Seq<char> {
    path_spelled(false, path_components(p).skip(path_components(base).len() as int))
}

/// `s` with each backslash replaced by a slash.
pub open spec fn slashes_only(s: Seq<char>) -> Seq<char> {
    Seq::new(s.len(), |i: int| if s[i] == '\\' { '/' } else { s[i] })
}

/// What `lexiclean` makes of a path: the same path with `.` dropped and
/// `..` resolved against the component before it, without looking at any
/// file system.
pub uninterp spec fn lexically_cleaned(path: Seq<char>) -> Seq<char>;

/// What `path_slash` makes of a path: the same path spelled with `/`.
pub uninterp spec fn slash_form(path: Seq<char>) -> Seq<char>;

/// The clean spelling of a path: lexically cleaned, spelled with `/`, and
/// with no backslash left.
pub open spec fn path_cleaned(path: Seq<char>) -> Seq<char> {
    slashes_only(slash_form(lexically_cleaned(path)))
}

/// Every split has at least one piece.
pub proof fn lemma_split_nonempty(s: Seq<char>)
    ensures
        path_split(s).len() >= 1,
    decreases s.len(),
{
    if s.len() > 0 {
        lemma_split_nonempty(s.drop_last());
    }
}

/// Calls `lexiclean::Lexiclean::lexiclean` on the path that `path` spells,
/// and gives the cleaned path back as text. The result is a function of the
/// text alone, read by the path rules of the platform that the library is
/// built for; it is named, not restated.
#[verifier::external_body]
pub(crate) fn lexiclean_path(path: &str) -> (out: String)
    ensures
        out@ == lexically_cleaned(path@),
{
    std::path::Path::new(path).lexiclean().to_string_lossy().into_owned()
}

/// Calls `path_slash::PathExt::to_slash_lossy` on the path that `path`
/// spells. A path built from text is valid Unicode, so nothing is lost. The
/// result is a function of the text alone; it is named, not restated.
#[verifier::external_body]
pub(crate) fn slash_path(path: &str) -> (out: String)
    ensures
        out@ == slash_form(path@),
{
    std::path::Path::new(path).to_slash_lossy().into_owned()
}

/// Replaces each backslash of `s` by a slash.
pub fn backslashes_to_slashes(s: &str) -> (out: String)
    ensures
        out@ == slashes_only(s@),
{
    let chars = chars_of(s);
    let mut out: Vec<char> = Vec::new();
    let mut i: usize = 0;
    while i < chars.len()
        invariant
            i <= chars.len(),
            out@ == slashes_only(chars@).take(i as int),
        decreases chars.len() - i,
    {
        let c = chars[i];
        if c == '\\' {
            out.push('/');
        } else {
            out.push(c);
        }
        i += 1;
    }
    string_of(&out)
}

/// The clean spelling of `p`: lexically cleaned, then spelled with forward
/// slashes only.
pub fn clean_path_string(p: &str) -> (out: String)
    ensures
        out@ == path_cleaned(p@),
{
    let cleaned = lexiclean_path(p);
    let slashed = slash_path(cleaned.as_str());
    backslashes_to_slashes(slashed.as_str())
}

/// Whether `piece` counts as a component.
fn piece_is_component(piece: &Vec<char>) -> (r: bool)
    ensures
        r == is_component(piece@),
{
    piece.len() > 0 && !(piece.len() == 1 && piece[0] == '.')
}

/// The components of `s`, in order.
pub fn components_of(s: &str) -> (out: Vec<Vec<char>>)
    ensures
        views(out@) == path_components(s@),
{
    let chars = chars_of(s);
    let mut out: Vec<Vec<char>> = Vec::new();
    let mut cur: Vec<char> = Vec::new();
    let mut i: usize = 0;
    proof {
        assert(chars@.take(0) == Seq::<char>::empty());
        assert(path_split(chars@.take(0)).drop_last() == Seq::<Seq<char>>::empty());
        assert(views(out@) == Seq::<Seq<char>>::empty());
    }
    while i < chars.len()
        invariant
            i <= chars.len(),
            views(out@) == kept_pieces(path_split(chars@.take(i as int)).drop_last()),
            cur@ == path_split(chars@.take(i as int)).last(),
        decreases chars.len() - i,
    {
        let ghost before = chars@.take(i as int);
        let ghost after = chars@.take(i + 1);
        proof {
            lemma_split_nonempty(before);
            assert(after.drop_last() == before);
            assert(after.last() == chars@[i as int]);
        }
        let c = chars[i];
        if c == '/' {
            proof {
                assert(path_split(after) == path_split(before).push(Seq::<char>::empty()));
                assert(path_split(after).drop_last() == path_split(before));
                assert(path_split(before).drop_last().push(path_split(before).last())
                    == path_split(before));
            }
            let done = piece_is_component(&cur);
            if done {
                let ghost old_out = out@;
                out.push(cur);
                proof {
                    assert(views(out@) == views(old_out).push(path_split(before).last()));
                }
            }
            cur = Vec::new();
        } else {
            proof {
                assert(path_split(after).drop_last() == path_split(before).drop_last());
            }
            cur.push(c);
        }
        i += 1;
    }
    proof {
        assert(chars@.take(chars.len() as int) == chars@);
        lemma_split_nonempty(chars@);
    }
    let done = piece_is_component(&cur);
    if done {
        let ghost old_out = out@;
        out.push(cur);
        proof {
            assert(views(out@) == views(old_out).push(path_split(chars@).last()));
        }
    }
    out
}

/// Whether `s` is absolute.
pub fn is_absolute(s: &str) -> (r: bool)
    ensures
        r == path_is_absolute(s@),
{
    let chars = chars_of(s);
    chars.len() > 0 && chars[0] == '/'
}

/// The normal spelling of the first `upto` components of `comps`.
pub fn spell(absolute: bool, comps: &Vec<Vec<char>>, upto: usize) -> (out: Vec<char>)
    requires
        upto <= comps.len(),
    ensures
        out@ == path_spelled(absolute, views(comps@).take(upto as int)),
{
    let mut out: Vec<char> = Vec::new();
    if absolute {
        out.push('/');
    }
    let mut k: usize = 0;
    proof {
        assert(out@ == path_root(absolute));
    }
    while k < upto
        invariant
            k <= upto <= comps.len(),
            out@ == path_spelled(absolute, views(comps@).take(k as int)),
        decreases upto - k,
    {
        let ghost head = views(comps@).take(k as int);
        let ghost next = views(comps@).take(k + 1);
        proof {
            assert(next.drop_last() == head);
            assert(next.last() == comps@[k as int]@);
        }
        if k > 0 {
            out.push('/');
        }
        let ghost mid = out@;
        extend_chars(&mut out, &comps[k]);
        proof {
            if k == 0 {
                assert(next[0] == comps@[0]@);
            } else {
                assert(mid == path_spelled(absolute, head) + seq!['/']);
            }
        }
        k += 1;
    }
    out
}

/// The index of the last `c` in `s`, if there is one.
fn find_last(s: &Vec<char>, c: char) -> (r: Option<usize>)
    ensures
        match r {
            Some(i) => i as int == last_index_of(s@, c) && i < s.len(),
            None => last_index_of(s@, c) == -1,
        },
{
    let mut found: Option<usize> = None;
    let mut i: usize = 0;
    proof {
        assert(s@.take(0) == Seq::<char>::empty());
    }
    while i < s.len()
        invariant
            i <= s.len(),
            match found {
                Some(j) => j as int == last_index_of(s@.take(i as int), c) && j < i,
                None => last_index_of(s@.take(i as int), c) == -1,
            },
        decreases s.len() - i,
    {
        proof {
            assert(s@.take(i + 1).drop_last() == s@.take(i as int));
            assert(s@.take(i + 1).last() == s@[i as int]);
        }
        if s[i] == c {
            found = Some(i);
        }
        i += 1;
    }
    proof {
        assert(s@.take(s.len() as int) == s@);
    }
    found
}

/// The extension of the file name `name`.
pub fn extension_of_name(name: &Vec<char>) -> (r: Option<Vec<char>>)
    ensures
        match r {
            Some(e) => name_extension(name@) == Some(e@),
            None => name_extension(name@) is None,
        },
{
    match find_last(name, '.') {
        Some(dot) => {
            if dot == 0 {
                None
            } else {
                Some(tail_from(name, dot + 1))
            }
        },
        None => None,
    }
}

/// Whether `piece` is `..`.
pub fn piece_is_parent(piece: &Vec<char>) -> (r: bool)
    ensures
        r == is_parent_piece(piece@),
{
    piece.len() == 2 && piece[0] == '.' && piece[1] == '.'
}

/// A copy of `chars`.
pub fn copy_chars(chars: &Vec<char>) -> (out: Vec<char>)
    ensures
        out@ == chars@,
{
    let mut out: Vec<char> = Vec::new();
    extend_chars(&mut out, chars);
    out
}

/// The file name of the path `s`: its last component, unless that is `..`.
pub fn file_name(s: &str) -> (r: Option<String>)
    ensures
        match r {
            Some(name) => path_file_name(s@) == Some(name@),
            None => path_file_name(s@) is None,
        },
{
    let comps = components_of(s);
    if comps.len() == 0 {
        return None;
    }
    let last = &comps[comps.len() - 1];
    assert(last@ == path_components(s@).last());
    if piece_is_parent(last) {
        None
    } else {
        Some(string_of(last))
    }
}

/// The extension of the path `s`: what follows the last `.` of its file
/// name, provided that `.` is not the name's first character.
pub fn extension(s: &str) -> (r: Option<String>)
    ensures
        match r {
            Some(e) => path_extension(s@) == Some(e@),
            None => path_extension(s@) is None,
        },
{
    match file_name(s) {
        Some(name) => {
            let chars = chars_of(name.as_str());
            match extension_of_name(&chars) {
                Some(e) => Some(string_of(&e)),
                None => None,
            }
        },
        None => None,
    }
}

/// `rel` resolved against `base`.
pub fn join(base: &str, rel: &str) -> (out: String)
    ensures
        out@ == path_joined(base@, rel@),
{
    let b = chars_of(base);
    let r = chars_of(rel);
    if r.len() > 0 && r[0] == '/' {
        return string_of(&r);
    }
    let mut out = copy_chars(&b);
    if b.len() > 0 && b[b.len() - 1] != '/' {
        out.push('/');
    }
    extend_chars(&mut out, &r);
    string_of(&out)
}

/// The proper ancestors of `s`, nearest first.
pub fn ancestors(s: &str) -> (out: Vec<String>)
    ensures
        string_views(out@) == path_ancestors(s@),
{
    let comps = components_of(s);
    let absolute = is_absolute(s);
    let n = comps.len();
    let mut out: Vec<String> = Vec::new();
    let mut j: usize = 0;
    while j < n
        invariant
            j <= n,
            n == comps.len(),
            views(comps@) == path_components(s@),
            absolute == path_is_absolute(s@),
            out.len() == j,
            forall|t: int| 0 <= t < j ==> (#[trigger] out@[t])@ == path_ancestor(s@, n - 1 - t),
        decreases n - j,
    {
        let spelled = spell(absolute, &comps, n - 1 - j);
        out.push(string_of(&spelled));
        j += 1;
    }
    assert(string_views(out@) =~= path_ancestors(s@));
    out
}

/// Whether the first `head.len()` items of `comps` are those of `head`.
pub fn components_begin_with(comps: &Vec<Vec<char>>, head: &Vec<Vec<char>>) -> (r: bool)
    ensures
        r == begins_with(views(comps@), views(head@)),
{
    if head.len() > comps.len() {
        return false;
    }
    let mut k: usize = 0;
    while k < head.len()
        invariant
            k <= head.len() <= comps.len(),
            views(comps@).take(k as int) == views(head@).take(k as int),
        decreases head.len() - k,
    {
        if !same_chars(&comps[k], &head[k]) {
            assert(views(comps@).take(head.len() as int)[k as int] != views(head@)[k as int]);
            return false;
        }
        proof {
            assert(views(comps@).take(k + 1) == views(comps@).take(k as int).push(
                comps@[k as int]@,
            ));
            assert(views(head@).take(k + 1) == views(head@).take(k as int).push(head@[k as int]@));
        }
        k += 1;
    }
    assert(views(head@).take(head.len() as int) == views(head@));
    true
}

/// Whether `p` is `base` or lies below it.
pub fn is_within(p: &str, base: &str) -> (r: bool)
    ensures
        r == path_within(p@, base@),
{
    if is_absolute(p) != is_absolute(base) {
        return false;
    }
    let pc = components_of(p);
    let bc = components_of(base);
    components_begin_with(&pc, &bc)
}

/// Whether `p` lies strictly below `base`.
pub fn is_strictly_within(p: &str, base: &str) -> (r: bool)
    ensures
        r == path_strictly_within(p@, base@),
{
    if is_absolute(p) != is_absolute(base) {
        return false;
    }
    let pc = components_of(p);
    let bc = components_of(base);
    components_begin_with(&pc, &bc) && bc.len() < pc.len()
}

/// What remains of `p` after `base`, as a relative path, where `p` is
/// `base` or lies below it.
pub fn strip_prefix(p: &str, base: &str) -> (r: Option<String>)
    ensures
        match r {
            Some(rest) => path_within(p@, base@) && rest@ == path_relative_to(p@, base@),
            None => !path_within(p@, base@),
        },
{
    if is_absolute(p) != is_absolute(base) {
        return None;
    }
    let pc = components_of(p);
    let bc = components_of(base);
    if !components_begin_with(&pc, &bc) {
        return None;
    }
    let mut rest: Vec<Vec<char>> = Vec::new();
    let mut k: usize = bc.len();
    while k < pc.len()
        invariant
            bc.len() <= k <= pc.len(),
            views(rest@) == views(pc@).subrange(bc.len() as int, k as int),
        decreases pc.len() - k,
    {
        let ghost old_rest = rest@;
        rest.push(copy_chars(&pc[k]));
        proof {
            assert(views(rest@) == views(old_rest).push(pc@[k as int]@));
        }
        k += 1;
    }
    let spelled = spell(false, &rest, rest.len());
    proof {
        assert(views(rest@).take(rest.len() as int) == views(rest@));
        assert(views(pc@).subrange(bc.len() as int, pc.len() as int) == views(pc@).skip(
            bc.len() as int,
        ));
    }
    Some(string_of(&spelled))
}

/// The pieces of a text, a separator and another text are the pieces of
/// the first followed by the pieces of the second.
pub proof fn lemma_split_around_separator(a: Seq<char>, b: Seq<char>)
    ensures
        path_split(a + seq!['/'] + b) == path_split(a) + path_split(b),
    decreases b.len(),
{
    let whole = a + seq!['/'] + b;
    lemma_split_nonempty(a);
    lemma_split_nonempty(b);
    if b.len() == 0 {
        assert(whole.drop_last() =~= a);
        assert(path_split(a).push(Seq::<char>::empty()) =~= path_split(a) + path_split(b));
    } else {
        let b0 = b.drop_last();
        lemma_split_around_separator(a, b0);
        lemma_split_nonempty(b0);
        assert(whole.drop_last() =~= a + seq!['/'] + b0);
        assert(whole.last() == b.last());
        let init = path_split(a) + path_split(b0);
        if b.last() == '/' {
            assert(init.push(Seq::<char>::empty()) =~= path_split(a) + path_split(b0).push(
                Seq::<char>::empty(),
            ));
        } else {
            assert(init.last() == path_split(b0).last());
            assert(init.drop_last() =~= path_split(a) + path_split(b0).drop_last());
            assert(init.drop_last().push(init.last().push(b.last())) =~= path_split(a)
                + path_split(b0).drop_last().push(path_split(b0).last().push(b.last())));
        }
    }
}

/// Keeping the components of two lists of pieces, one behind the other,
/// keeps those of each.
pub proof fn lemma_kept_pieces_concat(x: Seq<Seq<char>>, y: Seq<Seq<char>>)
    ensures
        kept_pieces(x + y) == kept_pieces(x) + kept_pieces(y),
    decreases y.len(),
{
    if y.len() == 0 {
        assert(x + y =~= x);
        assert(kept_pieces(x) + kept_pieces(y) =~= kept_pieces(x));
    } else {
        lemma_kept_pieces_concat(x, y.drop_last());
        assert((x + y).drop_last() =~= x + y.drop_last());
        assert((x + y).last() == y.last());
        if is_component(y.last()) {
            assert(kept_pieces(x + y.drop_last()).push(y.last()) =~= kept_pieces(x) + kept_pieces(
                y.drop_last(),
            ).push(y.last()));
        }
    }
}

/// The empty path has no components.
pub proof fn lemma_no_components_in_nothing()
    ensures
        path_components(Seq::<char>::empty()) == Seq::<Seq<char>>::empty(),
{
    let pieces = path_split(Seq::<char>::empty());
    assert(pieces =~= seq![Seq::<char>::empty()]);
    assert(pieces.last() =~= Seq::<char>::empty());
    assert(pieces.drop_last() =~= Seq::<Seq<char>>::empty());
    assert(kept_pieces(pieces.drop_last()) =~= Seq::<Seq<char>>::empty());
}

/// The components of a relative path joined to a base are those of the
/// base followed by its own.
pub proof fn lemma_joined_components(base: Seq<char>, rel: Seq<char>)
    requires
        !path_is_absolute(rel),
    ensures
        path_components(path_joined(base, rel)) == path_components(base) + path_components(rel),
        base.len() > 0 ==> path_is_absolute(path_joined(base, rel)) == path_is_absolute(base),
{
    lemma_no_components_in_nothing();
    if base.len() == 0 {
        assert(base + rel =~= rel);
        assert(base =~= Seq::<char>::empty());
        assert(path_components(base) + path_components(rel) =~= path_components(rel));
    } else if base.last() == '/' {
        let a = base.drop_last();
        assert(base + rel =~= a + seq!['/'] + rel);
        lemma_split_around_separator(a, rel);
        lemma_kept_pieces_concat(path_split(a), path_split(rel));
        assert(base =~= a + seq!['/'] + Seq::<char>::empty());
        lemma_split_around_separator(a, Seq::<char>::empty());
        lemma_kept_pieces_concat(path_split(a), path_split(Seq::<char>::empty()));
        assert(kept_pieces(path_split(a)) + Seq::<Seq<char>>::empty() =~= kept_pieces(
            path_split(a),
        ));
        assert((base + rel)[0] == base[0]);
    } else {
        lemma_split_around_separator(base, rel);
        lemma_kept_pieces_concat(path_split(base), path_split(rel));
        assert((base + seq!['/'] + rel)[0] == base[0]);
    }
}

/// A relative path joined to a base lies within the base.
pub proof fn lemma_joined_within(base: Seq<char>, rel: Seq<char>)
    requires
        !path_is_absolute(rel),
    ensures
        path_within(path_joined(base, rel), base),
{
    lemma_joined_components(base, rel);
    let whole = path_components(base) + path_components(rel);
    assert(whole.take(path_components(base).len() as int) =~= path_components(base));
    if base.len() == 0 {
        assert(base + rel =~= rel);
    }
}

/// A text without a separator is a single piece.
pub proof fn lemma_split_of_plain(s: Seq<char>)
    requires
        !s.contains('/'),
    ensures
        path_split(s) == seq![s],
    decreases s.len(),
{
    if s.len() == 0 {
        assert(s =~= Seq::<char>::empty());
    } else {
        let init = s.drop_last();
        assert(!init.contains('/')) by {
            if init.contains('/') {
                let k = choose|k: int| 0 <= k < init.len() && init[k] == '/';
                assert(s[k] == '/');
            }
        }
        lemma_split_of_plain(init);
        assert(s[s.len() - 1] != '/') by {
            if s[s.len() - 1] == '/' {
                assert(s.contains('/'));
            }
        }
        assert(init.push(s.last()) =~= s);
        assert(seq![init].drop_last().push(seq![init].last().push(s.last())) =~= seq![s]);
    }
}

/// Spelling components and taking the spelling apart gives the components
/// back.
pub proof fn lemma_spelled_components(comps: Seq<Seq<char>>)
    requires
        forall|i: int|
            0 <= i < comps.len() ==> is_component(#[trigger] comps[i]) && !comps[i].contains('/'),
    ensures
        path_components(path_spelled(false, comps)) == comps,
    decreases comps.len(),
{
    if comps.len() == 0 {
        lemma_no_components_in_nothing();
        assert(comps =~= Seq::<Seq<char>>::empty());
    } else {
        let last = comps.last();
        lemma_split_of_plain(last);
        assert(seq![last].drop_last() =~= Seq::<Seq<char>>::empty());
        assert(kept_pieces(seq![last].drop_last()) =~= Seq::<Seq<char>>::empty());
        assert(kept_pieces(seq![last]) =~= seq![last]);
        if comps.len() == 1 {
            assert(path_root(false) + comps[0] =~= comps[0]);
            assert(comps =~= seq![last]);
        } else {
            let init = comps.drop_last();
            lemma_spelled_components(init);
            lemma_split_around_separator(path_spelled(false, init), last);
            lemma_kept_pieces_concat(path_split(path_spelled(false, init)), path_split(last));
            assert(init + seq![last] =~= comps);
        }
    }
}

/// A path spelled from components is absolute exactly when asked to be.
pub proof fn lemma_spelled_relative(comps: Seq<Seq<char>>)
    requires
        forall|i: int| 0 <= i < comps.len() ==> is_component(#[trigger] comps[i]) && !comps[i].contains('/'),
    ensures
        !path_is_absolute(path_spelled(false, comps)),
    decreases comps.len(),
{
    if comps.len() == 1 {
        assert(path_root(false) + comps[0] =~= comps[0]);
        assert(comps[0].contains(comps[0][0]));
    } else if comps.len() > 1 {
        let init = comps.drop_last();
        lemma_spelled_relative(init);
        let head = path_spelled(false, init);
        if init.len() == 1 {
            assert(path_root(false) + init[0] =~= init[0]);
        }
        assert(is_component(init[0]));
        lemma_spelled_starts_with_first(init);
        assert((head + seq!['/'] + comps.last())[0] == head[0]);
    }
}

/// A relative path spelled from one or more components starts with the
/// first character of the first.
pub proof fn lemma_spelled_starts_with_first(comps: Seq<Seq<char>>)
    requires
        comps.len() > 0,
        comps[0].len() > 0,
    ensures
        path_spelled(false, comps).len() > 0,
        path_spelled(false, comps)[0] == comps[0][0],
    decreases comps.len(),
{
    if comps.len() == 1 {
        assert(path_root(false) + comps[0] =~= comps[0]);
    } else {
        lemma_spelled_starts_with_first(comps.drop_last());
        let head = path_spelled(false, comps.drop_last());
        assert((head + seq!['/'] + comps.last())[0] == head[0]);
    }
}

/// No piece of a split holds a separator.
pub proof fn lemma_pieces_hold_no_separator(s: Seq<char>)
    ensures
        forall|i: int| 0 <= i < path_split(s).len() ==> !(#[trigger] path_split(s)[i]).contains('/'),
    decreases s.len(),
{
    if s.len() > 0 {
        lemma_pieces_hold_no_separator(s.drop_last());
        lemma_split_nonempty(s.drop_last());
        let init = path_split(s.drop_last());
        if s.last() != '/' {
            let grown = init.last().push(s.last());
            assert(!grown.contains('/')) by {
                if grown.contains('/') {
                    let k = choose|k: int| 0 <= k < grown.len() && grown[k] == '/';
                    assert(init.last()[k] == '/');
                    assert(init.last().contains('/'));
                }
            }
        } else {
            assert(!Seq::<char>::empty().contains('/'));
        }
    }
}

/// Each component of a path is a component, holds no separator, and is one
/// of the path's pieces.
pub proof fn lemma_components_are_plain(s: Seq<char>)
    ensures
        forall|i: int|
            0 <= i < path_components(s).len() ==> is_component(#[trigger] path_components(s)[i])
                && !path_components(s)[i].contains('/'),
{
    lemma_pieces_hold_no_separator(s);
    lemma_kept_are_plain(path_split(s));
}

/// Kept pieces are components, and hold no separator where no piece does.
pub proof fn lemma_kept_are_plain(pieces: Seq<Seq<char>>)
    requires
        forall|i: int| 0 <= i < pieces.len() ==> !(#[trigger] pieces[i]).contains('/'),
    ensures
        forall|i: int|
            0 <= i < kept_pieces(pieces).len() ==> is_component(#[trigger] kept_pieces(pieces)[i])
                && !kept_pieces(pieces)[i].contains('/'),
    decreases pieces.len(),
{
    if pieces.len() > 0 {
        let init = pieces.drop_last();
        lemma_kept_are_plain(init);
        assert(!pieces[pieces.len() - 1].contains('/'));
        assert forall|i: int| 0 <= i < kept_pieces(pieces).len() implies is_component(
            #[trigger] kept_pieces(pieces)[i],
        ) && !kept_pieces(pieces)[i].contains('/') by {
            if i < kept_pieces(init).len() {
                assert(kept_pieces(pieces)[i] == kept_pieces(init)[i]);
            }
        }
    }
}

} // verus!
