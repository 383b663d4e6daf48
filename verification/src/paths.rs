//! Unix path rules over strings: joining, the final component and its
//! extension, as `std::path::Path` defines them.
use vstd::prelude::*;
use crate::text::{
    chars_of, copy_range, lemma_first_index_is, lemma_lex_asymmetric,
    lemma_lex_irreflexive, lemma_lex_total, lemma_lex_transitive, lex_lt, scan_to, split_on,
    string_of,
};

verus! {

/// A piece of a path that names a file or directory (not empty, not `.`).
pub open spec fn normal_piece(x: Seq<char>) -> bool {
    x.len() > 0 && x != "."@
}

/// The last naming piece among `/`-separated pieces.
pub open spec fn last_normal(pieces: Seq<Seq<char>>) -> Option<Seq<char>>
    decreases pieces.len(),
{
    if pieces.len() == 0 {
        None
    } else if normal_piece(pieces.last()) {
        Some(pieces.last())
    } else {
        last_normal(pieces.drop_last())
    }
}

/// `Path::file_name`: the final component unless it is `..`.
pub open spec fn file_name_spec(p: Seq<char>) -> Option<Seq<char>> {
    match last_normal(split_on(p, '/')) {
        Some(l) => if l == ".."@ {
            None
        } else {
            Some(l)
        },
        None => None,
    }
}

/// Index of the last occurrence of `c`.
pub open spec fn last_index_of(s: Seq<char>, c: char) -> Option<int>
    decreases s.len(),
{
    if s.len() == 0 {
        None
    } else if s.last() == c {
        Some(s.len() - 1)
    } else {
        last_index_of(s.drop_last(), c)
    }
}

/// `Path::extension`: the text after the last `.` of the file name, when
/// that dot is not its first character.
pub open spec fn extension_spec(p: Seq<char>) -> Option<Seq<char>> {
    match file_name_spec(p) {
        None => None,
        Some(f) => match last_index_of(f, '.') {
            Some(i) => if 0 < i < f.len() {
                Some(f.subrange(i + 1, f.len() as int))
            } else {
                None
            },
            None => None,
        },
    }
}

/// `Path::join` of a relative or absolute name onto a base.
pub open spec fn join_spec(base: Seq<char>, name: Seq<char>) -> Seq<char> {
    if name.len() > 0 && name[0] == '/' {
        name
    } else if base.len() == 0 {
        name
    } else if base.last() == '/' {
        base + name
    } else {
        base + "/"@ + name
    }
}

proof fn lemma_last_normal_cons(x: Seq<char>, rest: Seq<Seq<char>>)
    ensures
        last_normal(seq![x] + rest) == (if last_normal(rest) is Some {
            last_normal(rest)
        } else if normal_piece(x) {
            Some(x)
        } else {
            None
        }),
    decreases rest.len(),
{
    let s = seq![x] + rest;
    if rest.len() == 0 {
        assert(s =~= seq![x]);
        assert(s.last() == x);
        assert(s.drop_last() =~= Seq::<Seq<char>>::empty());
        assert(last_normal(Seq::<Seq<char>>::empty()) is None);
    } else {
        assert(s.last() == rest.last());
        assert(s.drop_last() =~= seq![x] + rest.drop_last());
        lemma_last_normal_cons(x, rest.drop_last());
        if normal_piece(rest.last()) {
            assert(last_normal(s) == Some(rest.last()));
            assert(last_normal(rest) == Some(rest.last()));
        } else {
            assert(last_normal(s) == last_normal(seq![x] + rest.drop_last()));
            assert(last_normal(rest) == last_normal(rest.drop_last()));
        }
    }
}

fn is_normal_piece(x: &[char]) -> (r: bool)
    ensures
        r == normal_piece(x@),
{
    proof {
        reveal_strlit(".");
    }
    if x.len() == 0 {
        return false;
    }
    if x.len() == 1 && x[0] == '.' {
        assert(x@ =~= "."@);
        return false;
    }
    assert(x@ != "."@) by {
        if x@ == "."@ {
            assert(x@.len() == 1 && x@[0] == '.');
        }
    }
    true
}

/// Last naming piece of `p[start..]`, or `current` when there is none.
fn last_normal_from(p: &[char], start: usize, current: Option<Vec<char>>) -> (r: Option<Vec<char>>)
    requires
        start <= p.len(),
    ensures
        ({
            let found = last_normal(split_on(p@.subrange(start as int, p.len() as int), '/'));
            match r {
                Some(v) => if found is Some {
                    found == Some(v@)
                } else {
                    current is Some && v@ == current->0@
                },
                None => found is None && current is None,
            }
        }),
    decreases p.len() - start,
{
    let ghost rest = p@.subrange(start as int, p.len() as int);
    let k = scan_to(p, start, '/');
    proof {
        assert forall|j: int| 0 <= j < k - start implies rest[j] != '/' by {
            assert(rest[j] == p@[start + j]);
        }
        if k < p.len() {
            assert(rest[k - start] == p@[k as int]);
        }
        lemma_first_index_is(rest, '/', k - start);
    }
    let piece = copy_range(p, start, k);
    let ghost tail = if k < p.len() {
        split_on(p@.subrange(k + 1, p.len() as int), '/')
    } else {
        Seq::<Seq<char>>::empty()
    };
    proof {
        assert(piece@ == rest.subrange(0, k - start));
        if k < p.len() {
            assert(rest.subrange(k - start + 1, rest.len() as int) =~= p@.subrange(
                k + 1,
                p.len() as int,
            ));
            assert(split_on(rest, '/') == seq![piece@] + tail);
        } else {
            assert(rest.subrange(0, k - start) =~= rest);
            assert(split_on(rest, '/') == seq![piece@]);
            assert(seq![piece@] =~= seq![piece@] + tail);
        }
        lemma_last_normal_cons(piece@, tail);
    }
    let next = if is_normal_piece(piece.as_slice()) {
        Some(piece)
    } else {
        current
    };
    if k == p.len() {
        next
    } else {
        last_normal_from(p, k + 1, next)
    }
}

/// The final component of a path (`Path::file_name`).
pub fn file_name(p: &str) -> (r: Option<Vec<char>>)
    ensures
        match r {
            Some(v) => file_name_spec(p@) == Some(v@),
            None => file_name_spec(p@) is None,
        },
{
    proof {
        reveal_strlit("..");
    }
    let cs = chars_of(p);
    assert(cs@.subrange(0, cs.len() as int) =~= cs@);
    match last_normal_from(cs.as_slice(), 0, None) {
        Some(v) => {
            if v.len() == 2 && v[0] == '.' && v[1] == '.' {
                assert(v@ =~= ".."@);
                None
            } else {
                assert(v@ != ".."@);
                Some(v)
            }
        },
        None => None,
    }
}

fn last_index(s: &[char], c: char) -> (r: Option<usize>)
    ensures
        match r {
            Some(i) => last_index_of(s@, c) == Some(i as int) && i < s.len(),
            None => last_index_of(s@, c) is None,
        },
{
    let mut k: usize = s.len();
    assert(s@.subrange(0, k as int) =~= s@);
    while k > 0 && s[k - 1] != c
        invariant
            k <= s.len(),
            last_index_of(s@, c) == last_index_of(s@.subrange(0, k as int), c),
        decreases k,
    {
        assert(s@.subrange(0, k as int).drop_last() =~= s@.subrange(0, k - 1));
        k -= 1;
    }
    if k == 0 {
        assert(s@.subrange(0, 0) =~= Seq::<char>::empty());
        None
    } else {
        assert(s@.subrange(0, k as int).last() == c);
        Some(k - 1)
    }
}

/// The extension of a path's final component (`Path::extension`).
pub fn extension(p: &str) -> (r: Option<Vec<char>>)
    ensures
        match r {
            Some(v) => extension_spec(p@) == Some(v@),
            None => extension_spec(p@) is None,
        },
{
    let f = match file_name(p) {
        Some(f) => f,
        None => return None,
    };
    match last_index(f.as_slice(), '.') {
        Some(i) => {
            if i > 0 {
                let n = f.len();
                Some(copy_range(f.as_slice(), i + 1, n))
            } else {
                None
            }
        },
        None => None,
    }
}

/// Joins a name onto a base path (`Path::join`).
pub fn join(base: &str, name: &str) -> (r: String)
    ensures
        r@ == join_spec(base@, name@),
{
    proof {
        reveal_strlit("/");
    }
    let b = chars_of(base);
    let mut n = chars_of(name);
    if n.len() > 0 && n[0] == '/' {
        return string_of(n.as_slice());
    }
    if b.len() == 0 {
        return string_of(n.as_slice());
    }
    let mut v = b.clone();
    if b[b.len() - 1] != '/' {
        v.push('/');
    }
    let ghost mid = v@;
    v.append(&mut n);
    proof {
        if b@.last() != '/' {
            assert(mid =~= b@ + "/"@);
        }
    }
    string_of(v.as_slice())
}

} // verus!

verus! {

/// The pieces that stand as normal (or `..`) components, in order.
pub open spec fn named_pieces(pieces: Seq<Seq<char>>) -> Seq<Seq<char>>
    decreases pieces.len(),
{
    if pieces.len() == 0 {
        Seq::empty()
    } else {
        (if normal_piece(pieces[0]) {
            seq![pieces[0]]
        } else {
            Seq::empty()
        }) + named_pieces(pieces.drop_first())
    }
}

/// `Path::components` of a Unix path: the root as `/`, a leading `.` of a
/// relative path as `.`, then every piece between separators that is neither
/// empty nor `.` (`..` stays, as the parent component).
pub open spec fn path_components(p: Seq<char>) -> Seq<Seq<char>> {
    let pieces = split_on(p, '/');
    let head = if p.len() > 0 && p[0] == '/' {
        seq!["/"@]
    } else if pieces.len() > 0 && pieces[0] == "."@ {
        seq!["."@]
    } else {
        Seq::empty()
    };
    head + named_pieces(pieces)
}

/// `Path::is_absolute` on Unix.
pub open spec fn is_absolute_spec(p: Seq<char>) -> bool {
    p.len() > 0 && p[0] == '/'
}

/// `Path::starts_with`: the components of `base` begin the components of `p`.
pub open spec fn path_starts_with(p: Seq<char>, base: Seq<char>) -> bool {
    crate::text::starts_with_spec(path_components(p), path_components(base))
}

/// Some component of `p` is `..`.
pub open spec fn has_parent_component(p: Seq<char>) -> bool {
    path_components(p).contains(".."@)
}

fn named_pieces_from(h: &[char], start: usize) -> (r: Vec<Vec<char>>)
    requires
        start <= h.len(),
    ensures
        r@.map_values(|v: Vec<char>| v@) == named_pieces(
            split_on(h@.subrange(start as int, h.len() as int), '/'),
        ),
    decreases h.len() - start,
{
    let ghost rest = h@.subrange(start as int, h.len() as int);
    let k = scan_to(h, start, '/');
    proof {
        assert forall|j: int| 0 <= j < k - start implies rest[j] != '/' by {
            assert(rest[j] == h@[start + j]);
        }
        if k < h.len() {
            assert(rest[k - start] == h@[k as int]);
        }
        lemma_first_index_is(rest, '/', k - start);
    }
    let piece = copy_range(h, start, k);
    let ghost tail = if k < h.len() {
        split_on(h@.subrange(k + 1, h.len() as int), '/')
    } else {
        Seq::<Seq<char>>::empty()
    };
    proof {
        assert(piece@ == rest.subrange(0, k - start));
        if k < h.len() {
            assert(rest.subrange(k - start + 1, rest.len() as int) =~= h@.subrange(
                k + 1,
                h.len() as int,
            ));
            assert(split_on(rest, '/') == seq![piece@] + tail);
        } else {
            assert(rest.subrange(0, k - start) =~= rest);
            assert(split_on(rest, '/') == seq![piece@]);
            assert(seq![piece@] =~= seq![piece@] + tail);
        }
        assert((seq![piece@] + tail)[0] == piece@);
        assert((seq![piece@] + tail).drop_first() =~= tail);
    }
    let mut later = if k == h.len() {
        Vec::new()
    } else {
        named_pieces_from(h, k + 1)
    };
    let keep = piece.len() > 0 && !(piece.len() == 1 && piece[0] == '.');
    proof {
        reveal_strlit(".");
        if piece@ == "."@ {
            assert(piece@.len() == 1 && piece@[0] == '.');
        }
        if piece.len() == 1 && piece@[0] == '.' {
            assert(piece@ =~= "."@);
        }
    }
    let mut out: Vec<Vec<char>> = Vec::new();
    if keep {
        out.push(piece);
    }
    let ghost first = out@;
    let ghost later_v = later@;
    out.append(&mut later);
    proof {
        assert(out@ =~= first + later_v);
        assert(out@.map_values(|v: Vec<char>| v@) =~= first.map_values(|v: Vec<char>| v@)
            + later_v.map_values(|v: Vec<char>| v@));
        assert(keep == normal_piece(piece@));
        let whole = seq![piece@] + tail;
        assert(named_pieces(whole) == (if normal_piece(whole[0]) {
            seq![whole[0]]
        } else {
            Seq::empty()
        }) + named_pieces(whole.drop_first()));
        if keep {
            assert(first.map_values(|v: Vec<char>| v@) =~= seq![piece@]);
        } else {
            assert(first.map_values(|v: Vec<char>| v@) =~= Seq::<Seq<char>>::empty());
        }
        if k == h.len() {
            assert(later_v.map_values(|v: Vec<char>| v@) =~= named_pieces(tail));
        }
    }
    out
}

} // verus!

verus! {

pub open spec fn views_of(v: Seq<Vec<char>>) -> Seq<Seq<char>> {
    v.map_values(|x: Vec<char>| x@)
}

/// The components of a path (`Path::components`), each as its characters.
pub fn components(p: &str) -> (r: Vec<Vec<char>>)
    ensures
        views_of(r@) == path_components(p@),
{
    let h = chars_of(p);
    assert(h@.subrange(0, h.len() as int) =~= h@);
    let named = named_pieces_from(h.as_slice(), 0);
    let k = scan_to(h.as_slice(), 0, '/');
    proof {
        reveal_strlit(".");
        reveal_strlit("/");
        lemma_first_index_is(h@, '/', k as int);
        crate::text::lemma_first_index_bounds(h@, '/');
        let pieces = split_on(h@, '/');
        if k < h.len() {
            assert(pieces[0] == h@.subrange(0, k as int));
        } else {
            assert(h@.subrange(0, k as int) =~= h@);
            assert(pieces[0] == h@);
        }
    }
    let mut out: Vec<Vec<char>> = Vec::new();
    if h.len() > 0 && h[0] == '/' {
        let mut root: Vec<char> = Vec::new();
        root.push('/');
        assert(root@ =~= "/"@);
        out.push(root);
    } else if k == 1 && h[0] == '.' {
        let mut cur: Vec<char> = Vec::new();
        cur.push('.');
        assert(cur@ =~= "."@);
        assert(h@.subrange(0, 1) =~= "."@);
        out.push(cur);
    } else {
        proof {
            let pieces = split_on(h@, '/');
            if pieces.len() > 0 && pieces[0] == "."@ {
                assert(h@.subrange(0, k as int).len() == 1);
            }
        }
    }
    let ghost head = out@;
    let mut named = named;
    let ghost named_v = named@;
    out.append(&mut named);
    proof {
        assert(out@ =~= head + named_v);
        assert(views_of(out@) =~= views_of(head) + views_of(named_v));
        let pieces = split_on(h@, '/');
        if h.len() > 0 && h@[0] == '/' {
            assert(views_of(head) =~= seq!["/"@]);
        } else if pieces.len() > 0 && pieces[0] == "."@ {
            assert(views_of(head) =~= seq!["."@]);
        } else {
            assert(views_of(head) =~= Seq::<Seq<char>>::empty());
        }
    }
    out
}

fn views_start_with(s: &Vec<Vec<char>>, prefix: &Vec<Vec<char>>) -> (r: bool)
    ensures
        r == crate::text::starts_with_spec(views_of(s@), views_of(prefix@)),
{
    if prefix.len() > s.len() {
        return false;
    }
    let mut i: usize = 0;
    while i < prefix.len()
        invariant
            i <= prefix.len() <= s.len(),
            forall|j: int| 0 <= j < i ==> views_of(s@)[j] == views_of(prefix@)[j],
        decreases prefix.len() - i,
    {
        if !crate::text::seq_eq(s[i].as_slice(), prefix[i].as_slice()) {
            assert(views_of(s@).subrange(0, prefix.len() as int)[i as int] != views_of(prefix@)[i as int]);
            return false;
        }
        i += 1;
    }
    assert(views_of(s@).subrange(0, prefix.len() as int) =~= views_of(prefix@));
    true
}

/// `Path::starts_with`, component by component.
pub fn starts_with_path(p: &str, base: &str) -> (r: bool)
    ensures
        r == path_starts_with(p@, base@),
{
    let a = components(p);
    let b = components(base);
    views_start_with(&a, &b)
}

/// `Path::is_absolute` on Unix.
pub fn is_absolute(p: &str) -> (r: bool)
    ensures
        r == is_absolute_spec(p@),
{
    let h = chars_of(p);
    h.len() > 0 && h[0] == '/'
}

/// Some component of the path is `..`.
pub fn has_parent_dir(p: &str) -> (r: bool)
    ensures
        r == has_parent_component(p@),
{
    let c = components(p);
    let mut i: usize = 0;
    while i < c.len()
        invariant
            i <= c.len(),
            views_of(c@) == path_components(p@),
            forall|j: int| 0 <= j < i ==> views_of(c@)[j] != ".."@,
        decreases c.len() - i,
    {
        if crate::media::word(c[i].as_slice(), "..") {
            assert(views_of(c@)[i as int] == ".."@);
            return true;
        }
        i += 1;
    }
    false
}

/// A non-empty relative path whose every component is a plain name.
pub open spec fn plain_relative(p: Seq<char>) -> bool {
    p.len() > 0 && forall|i: int| 0 <= i < path_components(p).len() ==> {
        let c = #[trigger] path_components(p)[i];
        c != "/"@ && c != "."@ && c != ".."@
    }
}

pub fn is_plain_relative(p: &str) -> (r: bool)
    ensures
        r == plain_relative(p@),
{
    let h = chars_of(p);
    if h.len() == 0 {
        return false;
    }
    let c = components(p);
    let mut i: usize = 0;
    while i < c.len()
        invariant
            i <= c.len(),
            views_of(c@) == path_components(p@),
            forall|j: int| 0 <= j < i ==> {
                let x = #[trigger] path_components(p@)[j];
                x != "/"@ && x != "."@ && x != ".."@
            },
        decreases c.len() - i,
    {
        let s = c[i].as_slice();
        if crate::media::word(s, "/") || crate::media::word(s, ".") || crate::media::word(s, "..") {
            assert(views_of(c@)[i as int] == c@[i as int]@);
            return false;
        }
        assert(views_of(c@)[i as int] == c@[i as int]@);
        i += 1;
    }
    true
}

} // verus!

verus! {

/// The components of `p` after those of `base`, when `p` lies beneath `base`.
pub open spec fn components_after(p: Seq<char>, base: Seq<char>) -> Option<Seq<Seq<char>>> {
    if path_starts_with(p, base) {
        Some(path_components(p).subrange(path_components(base).len() as int, path_components(p).len() as int))
    } else {
        None
    }
}

/// The path of `p` relative to `base` (`Path::strip_prefix`), its
/// remaining components joined by `/`; for a canonical `p` this is exactly
/// the text that `strip_prefix` leaves.
pub open spec fn relative_within_spec(p: Seq<char>, base: Seq<char>) -> Option<Seq<char>> {
    match components_after(p, base) {
        Some(rest) => Some(crate::codex::join_with(rest, "/"@)),
        None => None,
    }
}

pub fn relative_within(p: &str, base: &str) -> (r: Option<String>)
    ensures
        match r {
            Some(s) => relative_within_spec(p@, base@) == Some(s@),
            None => relative_within_spec(p@, base@) is None,
        },
{
    let a = components(p);
    let b = components(base);
    if !views_start_with(&a, &b) {
        return None;
    }
    let ghost rest = views_of(a@).subrange(b.len() as int, a.len() as int);
    let mut out: Vec<char> = Vec::new();
    let mut i: usize = b.len();
    while i < a.len()
        invariant
            b.len() <= i <= a.len(),
            rest == views_of(a@).subrange(b.len() as int, a.len() as int),
            out@ == crate::codex::join_with(rest.subrange(0, i - b.len()), "/"@),
        decreases a.len() - i,
    {
        let ghost before = rest.subrange(0, i - b.len());
        let ghost after = rest.subrange(0, i + 1 - b.len());
        proof {
            assert(after.drop_last() =~= before);
            assert(after.last() == a@[i as int]@);
        }
        if i > b.len() {
            out.push('/');
        }
        let ghost mid = out@;
        let mut piece = crate::text::copy_range(a[i].as_slice(), 0, a[i].len());
        assert(piece@ =~= a@[i as int]@);
        out.append(&mut piece);
        proof {
            reveal_strlit("/");
            if i == b.len() {
                assert(out@ =~= a@[i as int]@);
                assert(crate::codex::join_with(after, "/"@) == after[0]);
            } else {
                assert(out@ =~= crate::codex::join_with(before, "/"@) + "/"@ + a@[i as int]@);
            }
        }
        i += 1;
    }
    assert(rest.subrange(0, a.len() - b.len()) =~= rest);
    Some(string_of(out.as_slice()))
}

} // verus!

verus! {

/// The piece `last_normal` picks is one of the pieces.
pub proof fn lemma_last_normal_member(pieces: Seq<Seq<char>>)
    ensures
        last_normal(pieces) matches Some(l) ==> exists|i: int| 0 <= i < pieces.len() && #[trigger] pieces[i] == l,
    decreases pieces.len(),
{
    if pieces.len() > 0 && !normal_piece(pieces.last()) {
        lemma_last_normal_member(pieces.drop_last());
        match last_normal(pieces.drop_last()) {
            Some(l) => {
                let i = choose|i: int| 0 <= i < pieces.drop_last().len() && #[trigger] pieces.drop_last()[i] == l;
                assert(pieces[i] == l);
            },
            None => {},
        }
    } else if pieces.len() > 0 {
        assert(pieces[pieces.len() - 1] == pieces.last());
    }
}

/// A file name never holds a separator.
pub proof fn lemma_file_name_has_no_separator(p: Seq<char>)
    ensures
        file_name_spec(p) matches Some(f) ==> !f.contains('/') && normal_piece(f) && f != ".."@,
{
    let pieces = split_on(p, '/');
    crate::text::lemma_split_pieces_free(p, '/');
    lemma_last_normal_member(pieces);
    lemma_last_normal_is_normal(pieces);
}

proof fn lemma_last_normal_is_normal(pieces: Seq<Seq<char>>)
    ensures
        last_normal(pieces) matches Some(l) ==> normal_piece(l),
    decreases pieces.len(),
{
    if pieces.len() > 0 && !normal_piece(pieces.last()) {
        lemma_last_normal_is_normal(pieces.drop_last());
    }
}

/// A plain name (no separator, not empty, not `.` or `..`) is its own
/// file name.
pub proof fn lemma_file_name_of_plain(name: Seq<char>)
    requires
        !name.contains('/'),
        name.len() > 0,
        name != "."@,
        name != ".."@,
    ensures
        file_name_spec(name) == Some(name),
{
    crate::text::lemma_split_without_sep(name, '/');
    let pieces = split_on(name, '/');
    assert(pieces.last() == name);
    assert(normal_piece(name));
}

} // verus!

verus! {

proof fn lemma_named_pieces_concat(x: Seq<Seq<char>>, y: Seq<Seq<char>>)
    ensures
        named_pieces(x + y) == named_pieces(x) + named_pieces(y),
    decreases x.len(),
{
    if x.len() == 0 {
        assert(x + y =~= y);
    } else {
        assert((x + y).drop_first() =~= x.drop_first() + y);
        assert((x + y)[0] == x[0]);
        lemma_named_pieces_concat(x.drop_first(), y);
    }
}

proof fn lemma_named_single(x: Seq<char>)
    ensures
        named_pieces(seq![x]) == if normal_piece(x) {
            seq![x]
        } else {
            Seq::<Seq<char>>::empty()
        },
{
    let e = seq![x].drop_first();
    assert(e =~= Seq::<Seq<char>>::empty());
    assert(named_pieces(e) =~= Seq::<Seq<char>>::empty());
    assert(seq![x][0] == x);
    if normal_piece(x) {
        assert(named_pieces(seq![x]) =~= seq![x]);
    } else {
        assert(named_pieces(seq![x]) =~= Seq::<Seq<char>>::empty());
    }
}

/// Joining a plain name (no separator, not empty, not `.` or `..`) onto a
/// directory adds exactly that one component.
pub proof fn lemma_join_plain_name(base: Seq<char>, name: Seq<char>)
    requires
        name.len() > 0,
        !name.contains('/'),
        name != "."@,
        name != ".."@,
    ensures
        path_components(join_spec(base, name)) == path_components(base) + seq![name],
        path_starts_with(join_spec(base, name), base),
{
    reveal_strlit("/");
    reveal_strlit(".");
    crate::text::lemma_split_without_sep(name, '/');
    assert(name[0] != '/') by {
        if name[0] == '/' {
            assert(name.contains('/'));
        }
    }
    let j = join_spec(base, name);
    if base.len() == 0 {
        assert(j == name);
        crate::text::lemma_split_without_sep(base, '/');
        assert(split_on(base, '/') == seq![base]);
        lemma_named_single(base);
        lemma_named_single(name);
        assert(path_components(base) =~= Seq::<Seq<char>>::empty());
        assert(path_components(j) =~= path_components(base) + seq![name]);
    } else {
        let a = if base.last() == '/' {
            base.drop_last()
        } else {
            base
        };
        assert(j =~= a + seq!['/'] + name) by {
            if base.last() == '/' {
                assert(base =~= base.drop_last() + seq!['/']);
            }
        }
        crate::text::lemma_split_concat(a, name, '/');
        crate::text::lemma_split_nonempty(a, '/');
        lemma_named_pieces_concat(split_on(a, '/'), seq![name]);
        lemma_named_single(name);
        if base.last() == '/' {
            crate::text::lemma_split_concat(a, Seq::empty(), '/');
            assert(a + seq!['/'] + Seq::<char>::empty() =~= base);
            crate::text::lemma_split_without_sep(Seq::<char>::empty(), '/');
            lemma_named_pieces_concat(split_on(a, '/'), seq![Seq::<char>::empty()]);
            lemma_named_single(Seq::<char>::empty());
            assert((split_on(a, '/') + split_on(Seq::<char>::empty(), '/'))[0] == split_on(a, '/')[0]);
        }
        assert((split_on(a, '/') + split_on(name, '/'))[0] == split_on(a, '/')[0]);
        assert(j[0] == base[0]) by {
            if a.len() > 0 {
                assert(j[0] == a[0]);
                assert(a[0] == base[0]);
            } else {
                assert(j[0] == '/');
                assert(base.last() == '/' || base =~= a);
            }
        }
        assert(path_components(j) =~= path_components(base) + seq![name]);
    }
    let pc = path_components(j);
    let pb = path_components(base);
    assert(pc.subrange(0, pb.len() as int) =~= pb);
}

} // verus!

verus! {

/// The rank of a component's kind in `Component`'s order: the root, the
/// current directory, the parent directory, then normal names.
pub open spec fn component_kind(c: Seq<char>) -> int {
    if c == "/"@ {
        0
    } else if c == "."@ {
        1
    } else if c == ".."@ {
        2
    } else {
        3
    }
}

/// The order of two components: by kind, then normal names by code point.
pub open spec fn component_lt(a: Seq<char>, b: Seq<char>) -> bool {
    component_kind(a) < component_kind(b) || (component_kind(a) == component_kind(b) && lex_lt(a, b))
}

/// The order of paths (`Path::cmp`): their components compared in turn.
pub open spec fn components_lt(a: Seq<Seq<char>>, b: Seq<Seq<char>>) -> bool
    decreases a.len(),
{
    if a.len() == 0 {
        b.len() > 0
    } else if b.len() == 0 {
        false
    } else if component_lt(a[0], b[0]) {
        true
    } else if a[0] == b[0] {
        components_lt(a.drop_first(), b.drop_first())
    } else {
        false
    }
}

pub proof fn lemma_component_lt_total(a: Seq<char>, b: Seq<char>)
    ensures
        !component_lt(a, a),
        component_lt(a, b) ==> !component_lt(b, a),
        a != b ==> component_lt(a, b) || component_lt(b, a),
{
    lemma_lex_irreflexive(a);
    if component_lt(a, b) && component_kind(a) == component_kind(b) {
        lemma_lex_asymmetric(a, b);
    }
    if a != b && component_kind(a) == component_kind(b) {
        lemma_lex_total(a, b);
    }
}

pub proof fn lemma_component_lt_transitive(a: Seq<char>, b: Seq<char>, c: Seq<char>)
    requires
        component_lt(a, b),
        component_lt(b, c),
    ensures
        component_lt(a, c),
{
    if component_kind(a) == component_kind(b) && component_kind(b) == component_kind(c) {
        lemma_lex_transitive(a, b, c);
    }
}

/// Path order is a strict total order.
pub proof fn lemma_components_lt_order(a: Seq<Seq<char>>, b: Seq<Seq<char>>)
    ensures
        !components_lt(a, a),
        components_lt(a, b) ==> !components_lt(b, a),
        a != b ==> components_lt(a, b) || components_lt(b, a),
    decreases a.len(),
{
    if a.len() > 0 && b.len() > 0 {
        lemma_component_lt_total(a[0], b[0]);
        lemma_components_lt_order(a.drop_first(), b.drop_first());
        lemma_components_lt_order(a.drop_first(), a.drop_first());
        if a[0] == b[0] && a.drop_first() == b.drop_first() {
            assert(a =~= seq![a[0]] + a.drop_first());
            assert(b =~= seq![b[0]] + b.drop_first());
        }
    } else if a.len() > 0 {
        lemma_component_lt_total(a[0], a[0]);
        lemma_components_lt_order(a.drop_first(), a.drop_first());
    } else if a.len() == 0 && b.len() == 0 {
        assert(a =~= b);
    }
}

pub proof fn lemma_components_lt_transitive(a: Seq<Seq<char>>, b: Seq<Seq<char>>, c: Seq<Seq<char>>)
    requires
        components_lt(a, b),
        components_lt(b, c),
    ensures
        components_lt(a, c),
    decreases a.len(),
{
    if a.len() > 0 && b.len() > 0 && c.len() > 0 {
        if component_lt(a[0], b[0]) && component_lt(b[0], c[0]) {
            lemma_component_lt_transitive(a[0], b[0], c[0]);
        } else if a[0] == b[0] && b[0] == c[0] {
            lemma_components_lt_transitive(a.drop_first(), b.drop_first(), c.drop_first());
        }
    }
}

fn component_less(a: &Vec<char>, b: &Vec<char>) -> (r: bool)
    ensures
        r == component_lt(a@, b@),
{
    let ka = kind_of(a);
    let kb = kind_of(b);
    ka < kb || (ka == kb && crate::text::lex_less(a.as_slice(), b.as_slice()))
}

fn kind_of(c: &Vec<char>) -> (r: u8)
    ensures
        r as int == component_kind(c@),
{
    proof {
        reveal_strlit("/");
        reveal_strlit(".");
        reveal_strlit("..");
    }
    if c.len() == 1 && c[0] == '/' {
        assert(c@ =~= "/"@);
        0
    } else if c.len() == 1 && c[0] == '.' {
        assert(c@ =~= "."@);
        1
    } else if c.len() == 2 && c[0] == '.' && c[1] == '.' {
        assert(c@ =~= ".."@);
        2
    } else {
        assert(c@ != "/"@ && c@ != "."@ && c@ != ".."@);
        3
    }
}

/// Whether path `a` orders before path `b` (`Path::cmp`), given their components.
pub fn components_less(a: &Vec<Vec<char>>, b: &Vec<Vec<char>>) -> (r: bool)
    ensures
        r == components_lt(views_of(a@), views_of(b@)),
{
    let ghost va = views_of(a@);
    let ghost vb = views_of(b@);
    let mut i: usize = 0;
    assert(va.subrange(0, va.len() as int) =~= va);
    assert(vb.subrange(0, vb.len() as int) =~= vb);
    while i < a.len() && i < b.len() && crate::text::seq_eq(a[i].as_slice(), b[i].as_slice())
        invariant
            i <= a.len(),
            i <= b.len(),
            va == views_of(a@),
            vb == views_of(b@),
            components_lt(va, vb) == components_lt(va.subrange(i as int, va.len() as int), vb.subrange(i as int, vb.len() as int)),
        decreases a.len() - i,
    {
        let ghost x = va.subrange(i as int, va.len() as int);
        let ghost y = vb.subrange(i as int, vb.len() as int);
        assert(x.drop_first() =~= va.subrange(i + 1, va.len() as int));
        assert(y.drop_first() =~= vb.subrange(i + 1, vb.len() as int));
        assert(x[0] == a@[i as int]@);
        assert(y[0] == b@[i as int]@);
        proof {
            lemma_component_lt_total(x[0], x[0]);
        }
        i += 1;
    }
    if i == a.len() {
        i < b.len()
    } else if i == b.len() {
        false
    } else {
        let ghost x = va.subrange(i as int, va.len() as int);
        let ghost y = vb.subrange(i as int, vb.len() as int);
        assert(x[0] == a@[i as int]@);
        assert(y[0] == b@[i as int]@);
        component_less(&a[i], &b[i])
    }
}

} // verus!

