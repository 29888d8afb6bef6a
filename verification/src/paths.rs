//! Filesystem paths as character sequences.
//!
//! Paths are `/`-separated. Their component structure follows the platform's
//! rules: a leading `/` is the root, a leading `.` segment is the current
//! directory, later `.` segments and empty segments are skipped, and `..` is
//! the parent directory.

use vstd::prelude::*;
use crate::text::{chars_eq, sub_chars};

verus! {

/// One component of a path.
pub enum Component {
    RootDir,
    CurDir,
    ParentDir,
    Normal(Seq<char>),
}

/// One component of a path, as computed by executable code.
pub enum PathPart {
    RootDir,
    CurDir,
    ParentDir,
    Normal(Vec<char>),
}

impl View for PathPart {
    type V = Component;

    open spec fn view(&self) -> Component {
        match self {
            PathPart::RootDir => Component::RootDir,
            PathPart::CurDir => Component::CurDir,
            PathPart::ParentDir => Component::ParentDir,
            PathPart::Normal(v) => Component::Normal(v@),
        }
    }
}

/// The pieces of `p` between `/` separators, including empty pieces.
pub open spec fn pieces(p: Seq<char>) -> Seq<Seq<char>>
    decreases p.len(),
{
    if p.len() == 0 {
        seq![Seq::empty()]
    } else {
        let prev = pieces(p.drop_last());
        if p.last() == '/' {
            prev.push(Seq::empty())
        } else {
            prev.update(prev.len() - 1, prev.last().push(p.last()))
        }
    }
}

pub proof fn lemma_pieces_nonempty(p: Seq<char>)
    ensures
        pieces(p).len() >= 1,
    decreases p.len(),
{
    if p.len() > 0 {
        lemma_pieces_nonempty(p.drop_last());
    }
}

/// The component a non-separator piece stands for, if any.
pub open spec fn piece_component(piece: Seq<char>) -> Option<Component> {
    if piece.len() == 0 || piece == seq!['.'] {
        None
    } else if piece == seq!['.', '.'] {
        Some(Component::ParentDir)
    } else {
        Some(Component::Normal(piece))
    }
}

/// Components contributed by a list of pieces, in order.
pub open spec fn piece_components(ps: Seq<Seq<char>>) -> Seq<Component>
    decreases ps.len(),
{
    if ps.len() == 0 {
        Seq::empty()
    } else {
        let prev = piece_components(ps.drop_last());
        match piece_component(ps.last()) {
            Some(c) => prev.push(c),
            None => prev,
        }
    }
}

/// The path starts at the root.
pub open spec fn has_root(p: Seq<char>) -> bool {
    p.len() > 0 && p[0] == '/'
}

/// The path starts with a current-directory component.
pub open spec fn has_leading_cur_dir(p: Seq<char>) -> bool {
    p.len() > 0 && p[0] == '.' && (p.len() == 1 || p[1] == '/')
}

/// The components of a path.
pub open spec fn components(p: Seq<char>) -> Seq<Component> {
    (if has_root(p) {
        seq![Component::RootDir]
    } else {
        Seq::empty()
    }) + (if has_leading_cur_dir(p) {
        seq![Component::CurDir]
    } else {
        Seq::empty()
    }) + piece_components(pieces(p))
}

/// The final component of a path, when it names a file or directory.
pub open spec fn file_name(p: Seq<char>) -> Option<Seq<char>> {
    let cs = components(p);
    if cs.len() > 0 {
        match cs.last() {
            Component::Normal(name) => Some(name),
            _ => None,
        }
    } else {
        None
    }
}

fn is_dot(piece: &Vec<char>) -> (b: bool)
    ensures
        b == (piece@ == seq!['.']),
{
    let r = piece.len() == 1 && piece[0] == '.';
    proof {
        if piece@ == seq!['.'] {
            assert(piece@[0] == '.');
        }
        if r {
            assert(piece@ =~= seq!['.']);
        }
    }
    r
}

fn is_dot_dot(piece: &Vec<char>) -> (b: bool)
    ensures
        b == (piece@ == seq!['.', '.']),
{
    let r = piece.len() == 2 && piece[0] == '.' && piece[1] == '.';
    proof {
        if piece@ == seq!['.', '.'] {
            assert(piece@[0] == '.' && piece@[1] == '.');
        }
        if r {
            assert(piece@ =~= seq!['.', '.']);
        }
    }
    r
}

/// The components a single piece contributes.
pub open spec fn piece_seq(piece: Seq<char>) -> Seq<Component> {
    match piece_component(piece) {
        Some(c) => seq![c],
        None => Seq::empty(),
    }
}

proof fn lemma_piece_components_last(ps: Seq<Seq<char>>)
    requires
        ps.len() > 0,
    ensures
        piece_components(ps) == piece_components(ps.drop_last()) + piece_seq(ps.last()),
{
    let prev = piece_components(ps.drop_last());
    match piece_component(ps.last()) {
        Some(c) => {
            assert(prev.push(c) =~= prev + seq![c]);
        },
        None => {
            assert(prev =~= prev + Seq::<Component>::empty());
        },
    }
}

fn push_piece(r: &mut Vec<PathPart>, piece: Vec<char>)
    ensures
        final(r)@.map_values(|c: PathPart| c@) == old(r)@.map_values(|c: PathPart| c@)
            + piece_seq(piece@),
{
    let ghost before = r@;
    let ghost pv = piece@;
    if piece.len() == 0 || is_dot(&piece) {
        assert(r@.map_values(|c: PathPart| c@) =~= before.map_values(|c: PathPart| c@)
            + piece_seq(pv));
    } else if is_dot_dot(&piece) {
        r.push(PathPart::ParentDir);
        assert(r@.map_values(|c: PathPart| c@) =~= before.map_values(|c: PathPart| c@)
            + piece_seq(pv));
    } else {
        r.push(PathPart::Normal(piece));
        assert(r@.map_values(|c: PathPart| c@) =~= before.map_values(|c: PathPart| c@)
            + piece_seq(pv));
    }
}

/// The components of a path, in order.
pub fn path_components(p: &Vec<char>) -> (r: Vec<PathPart>)
    ensures
        r@.map_values(|c: PathPart| c@) == components(p@),
{
    let mut r: Vec<PathPart> = Vec::new();
    if p.len() > 0 && p[0] == '/' {
        r.push(PathPart::RootDir);
    }
    if p.len() > 0 && p[0] == '.' && (p.len() == 1 || p[1] == '/') {
        r.push(PathPart::CurDir);
    }
    let ghost head = r@.map_values(|c: PathPart| c@);
    assert(head =~= (if has_root(p@) {
        seq![Component::RootDir]
    } else {
        Seq::empty()
    }) + (if has_leading_cur_dir(p@) {
        seq![Component::CurDir]
    } else {
        Seq::empty()
    }));
    let mut start: usize = 0;
    let mut i: usize = 0;
    proof {
        assert(p@.take(0) =~= Seq::<char>::empty());
        assert(pieces(p@.take(0)).drop_last() =~= Seq::<Seq<char>>::empty());
    }
    while i < p.len()
        invariant
            start <= i <= p.len(),
            pieces(p@.take(i as int)).len() >= 1,
            pieces(p@.take(i as int)).last() == p@.subrange(start as int, i as int),
            r@.map_values(|c: PathPart| c@) == head + piece_components(
                pieces(p@.take(i as int)).drop_last(),
            ),
        decreases p.len() - i,
    {
        let ghost ps = pieces(p@.take(i as int));
        let q = Ghost(p@.take(i + 1));
        proof {
            assert(q@.drop_last() =~= p@.take(i as int));
            assert(q@.last() == p@[i as int]);
        }
        if p[i] == '/' {
            let piece = sub_chars(p, start, i);
            push_piece(&mut r, piece);
            proof {
                lemma_piece_components_last(ps);
                assert(pieces(q@) == ps.push(Seq::empty()));
                assert(pieces(q@).drop_last() =~= ps);
                assert(p@.subrange(i + 1, i + 1) =~= Seq::<char>::empty());
                assert(r@.map_values(|c: PathPart| c@) =~= head + piece_components(ps));
            }
            start = i + 1;
        } else {
            proof {
                assert(pieces(q@) == ps.update(ps.len() - 1, ps.last().push(p@[i as int])));
                assert(pieces(q@).drop_last() =~= ps.drop_last());
                assert(p@.subrange(start as int, i + 1) =~= p@.subrange(start as int, i as int).push(
                    p@[i as int],
                ));
            }
        }
        i = i + 1;
    }
    let piece = sub_chars(p, start, i);
    push_piece(&mut r, piece);
    proof {
        let ps = pieces(p@);
        assert(p@.take(i as int) =~= p@);
        lemma_piece_components_last(ps);
        assert(r@.map_values(|c: PathPart| c@) =~= head + piece_components(ps));
    }
    r
}

/// Index of the last occurrence of `c` in `s`, or `-1`.
pub open spec fn last_index_of(s: Seq<char>, c: char) -> int
    decreases s.len(),
{
    if s.len() == 0 {
        -1
    } else if s.last() == c {
        s.len() - 1
    } else {
        last_index_of(s.drop_last(), c)
    }
}

pub proof fn lemma_last_index_of(s: Seq<char>, c: char)
    ensures
        -1 <= last_index_of(s, c) < s.len(),
        last_index_of(s, c) >= 0 ==> s[last_index_of(s, c)] == c,
        forall|j: int| last_index_of(s, c) < j < s.len() ==> s[j] != c,
    decreases s.len(),
{
    if s.len() > 0 && s.last() != c {
        lemma_last_index_of(s.drop_last(), c);
        assert forall|j: int| last_index_of(s, c) < j < s.len() implies s[j] != c by {
            if j < s.len() - 1 {
                assert(s[j] == s.drop_last()[j]);
            }
        }
    }
}

/// Index of the last occurrence of `c` in `s`.
pub fn last_index(s: &Vec<char>, c: char) -> (r: Option<usize>)
    ensures
        match r {
            Some(i) => i as int == last_index_of(s@, c),
            None => last_index_of(s@, c) == -1,
        },
{
    let mut i = s.len();
    assert(s@.take(i as int) =~= s@);
    while i > 0
        invariant
            i <= s.len(),
            last_index_of(s@, c) == last_index_of(s@.take(i as int), c),
        decreases i,
    {
        let ghost t = s@.take(i as int);
        if s[i - 1] == c {
            assert(t.last() == c);
            return Some(i - 1);
        }
        assert(t.drop_last() =~= s@.take(i - 1));
        i = i - 1;
    }
    assert(s@.take(0) =~= Seq::<char>::empty());
    None
}

/// File name without its final extension, as the platform splits it: a name
/// with no dot, or whose only dot is its first character, is its own stem.
pub open spec fn stem_of(name: Seq<char>) -> Seq<char> {
    let d = last_index_of(name, '.');
    if d <= 0 {
        name
    } else {
        name.take(d)
    }
}

/// The extension of a file name, if it has one.
pub open spec fn extension_of(name: Seq<char>) -> Option<Seq<char>> {
    let d = last_index_of(name, '.');
    if d <= 0 {
        None
    } else {
        Some(name.skip(d + 1))
    }
}

/// Text of one component.
pub open spec fn component_text(c: Component) -> Seq<char> {
    match c {
        Component::RootDir => seq!['/'],
        Component::CurDir => seq!['.'],
        Component::ParentDir => seq!['.', '.'],
        Component::Normal(name) => name,
    }
}

/// Append `b` to `a` with one separator between them when needed.
pub open spec fn join_text(a: Seq<char>, b: Seq<char>) -> Seq<char> {
    if a.len() == 0 {
        b
    } else if a.last() == '/' {
        a + b
    } else {
        a + seq!['/'] + b
    }
}

/// `base.join(child)`: an absolute child replaces the base.
pub open spec fn path_join(base: Seq<char>, child: Seq<char>) -> Seq<char> {
    if has_root(child) {
        child
    } else {
        join_text(base, child)
    }
}

/// A path spelled from its components.
pub open spec fn render(cs: Seq<Component>) -> Seq<char>
    decreases cs.len(),
{
    if cs.len() == 0 {
        Seq::empty()
    } else {
        join_text(render(cs.drop_last()), component_text(cs.last()))
    }
}

/// `path` ends with the components of `suffix`.
pub open spec fn ends_with_components(path: Seq<char>, suffix: Seq<char>) -> bool {
    let a = components(path);
    let b = components(suffix);
    b.len() <= a.len() && a.skip(a.len() - b.len()) == b
}

/// Append `b` to `a` with one separator between them when needed.
pub fn join_chars(a: &Vec<char>, b: &Vec<char>) -> (r: Vec<char>)
    ensures
        r@ == join_text(a@, b@),
{
    let mut r = a.clone();
    if r.len() > 0 && r[r.len() - 1] != '/' {
        r.push('/');
    }
    let mut i: usize = 0;
    let ghost base = r@;
    while i < b.len()
        invariant
            i <= b.len(),
            r@ == base + b@.take(i as int),
        decreases b.len() - i,
    {
        r.push(b[i]);
        i = i + 1;
        assert(r@ =~= base + b@.take(i as int));
    }
    assert(b@.take(b@.len() as int) =~= b@);
    assert(r@ =~= join_text(a@, b@));
    r
}

/// `base.join(child)` for paths held as text.
pub fn join_path(base: &str, child: &str) -> (r: String)
    ensures
        r@ == path_join(base@, child@),
{
    let b = crate::text::chars_of(base);
    let c = crate::text::chars_of(child);
    if c.len() > 0 && c[0] == '/' {
        return child.to_owned();
    }
    crate::text::string_of(&join_chars(&b, &c))
}

fn part_text(c: &PathPart) -> (r: Vec<char>)
    ensures
        r@ == component_text(c@),
{
    match c {
        PathPart::RootDir => {
            let r = vec!['/'];
            assert(r@ =~= seq!['/']);
            r
        },
        PathPart::CurDir => {
            let r = vec!['.'];
            assert(r@ =~= seq!['.']);
            r
        },
        PathPart::ParentDir => {
            let r = vec!['.', '.'];
            assert(r@ =~= seq!['.', '.']);
            r
        },
        PathPart::Normal(name) => name.clone(),
    }
}

/// A path spelled from its components.
pub fn render_parts(cs: &Vec<PathPart>) -> (r: Vec<char>)
    ensures
        r@ == render(cs@.map_values(|c: PathPart| c@)),
{
    let mut r: Vec<char> = Vec::new();
    let mut i: usize = 0;
    while i < cs.len()
        invariant
            i <= cs.len(),
            r@ == render(cs@.map_values(|c: PathPart| c@).take(i as int)),
        decreases cs.len() - i,
    {
        let t = part_text(&cs[i]);
        r = join_chars(&r, &t);
        proof {
            let m = cs@.map_values(|c: PathPart| c@);
            assert(m.take(i + 1).drop_last() =~= m.take(i as int));
            assert(m.take(i + 1).last() == cs@[i as int]@);
        }
        i = i + 1;
    }
    assert(cs@.map_values(|c: PathPart| c@).take(cs.len() as int) =~= cs@.map_values(
        |c: PathPart| c@,
    ));
    r
}

/// The final component of a path, when it names a file or directory.
pub fn file_name_of(p: &Vec<char>) -> (r: Option<Vec<char>>)
    ensures
        match r {
            Some(name) => file_name(p@) == Some(name@),
            None => file_name(p@) is None,
        },
{
    let cs = path_components(p);
    if cs.len() == 0 {
        return None;
    }
    let ghost m = cs@.map_values(|c: PathPart| c@);
    assert(m.last() == cs@[cs.len() - 1]@);
    match &cs[cs.len() - 1] {
        PathPart::Normal(name) => Some(name.clone()),
        _ => None,
    }
}

/// Stem of a file name.
pub fn stem(name: &Vec<char>) -> (r: Vec<char>)
    ensures
        r@ == stem_of(name@),
{
    proof {
        lemma_last_index_of(name@, '.');
    }
    match last_index(name, '.') {
        Some(d) => {
            if d == 0 {
                name.clone()
            } else {
                crate::text::sub_chars(name, 0, d)
            }
        },
        None => name.clone(),
    }
}

/// Extension of a file name.
pub fn extension(name: &Vec<char>) -> (r: Option<Vec<char>>)
    ensures
        match r {
            Some(e) => extension_of(name@) == Some(e@),
            None => extension_of(name@) is None,
        },
{
    proof {
        lemma_last_index_of(name@, '.');
    }
    match last_index(name, '.') {
        Some(d) => {
            if d == 0 {
                None
            } else {
                assert(d < name@.len());
                assert(d < name.len());
                Some(crate::text::sub_chars(name, d + 1, name.len()))
            }
        },
        None => None,
    }
}

fn parts_eq(a: &PathPart, b: &PathPart) -> (r: bool)
    ensures
        r == (a@ == b@),
{
    match (a, b) {
        (PathPart::RootDir, PathPart::RootDir) => true,
        (PathPart::CurDir, PathPart::CurDir) => true,
        (PathPart::ParentDir, PathPart::ParentDir) => true,
        (PathPart::Normal(x), PathPart::Normal(y)) => crate::text::chars_eq(x, y),
        _ => false,
    }
}

/// `path` ends with the components of `suffix`.
pub fn path_ends_with(path: &Vec<char>, suffix: &Vec<char>) -> (r: bool)
    ensures
        r == ends_with_components(path@, suffix@),
{
    let a = path_components(path);
    let b = path_components(suffix);
    let ghost ma = a@.map_values(|c: PathPart| c@);
    let ghost mb = b@.map_values(|c: PathPart| c@);
    if b.len() > a.len() {
        return false;
    }
    let off = a.len() - b.len();
    let mut k: usize = 0;
    while k < b.len()
        invariant
            off + b.len() == a.len(),
            k <= b.len(),
            ma == a@.map_values(|c: PathPart| c@),
            mb == b@.map_values(|c: PathPart| c@),
            ma == components(path@),
            mb == components(suffix@),
            forall|j: int| 0 <= j < k ==> ma[off + j] == mb[j],
        decreases b.len() - k,
    {
        if !parts_eq(&a[off + k], &b[k]) {
            assert(ma[off + k] == a@[off + k]@);
            assert(mb[k as int] == b@[k as int]@);
            assert(ma.skip(off as int)[k as int] != mb[k as int]);
            return false;
        }
        k = k + 1;
    }
    assert(ma.skip(off as int) =~= mb);
    true
}

/// `path` starts with the components of `base` (`Path::starts_with`).
pub open spec fn starts_with_components(path: Seq<char>, base: Seq<char>) -> bool {
    let a = components(path);
    let b = components(base);
    b.len() <= a.len() && a.take(b.len() as int) == b
}

/// Whether `path` starts with the components of `base`.
pub fn path_starts_with(path: &str, base: &str) -> (r: bool)
    ensures
        r == starts_with_components(path@, base@),
{
    let a = path_components(&crate::text::chars_of(path));
    let b = path_components(&crate::text::chars_of(base));
    let ghost ma = a@.map_values(|c: PathPart| c@);
    let ghost mb = b@.map_values(|c: PathPart| c@);
    if b.len() > a.len() {
        return false;
    }
    let mut k: usize = 0;
    while k < b.len()
        invariant
            b.len() <= a.len(),
            k <= b.len(),
            ma == a@.map_values(|c: PathPart| c@),
            mb == b@.map_values(|c: PathPart| c@),
            ma == components(path@),
            mb == components(base@),
            forall|j: int| 0 <= j < k ==> ma[j] == mb[j],
        decreases b.len() - k,
    {
        if !parts_eq(&a[k], &b[k]) {
            assert(ma[k as int] == a@[k as int]@);
            assert(mb[k as int] == b@[k as int]@);
            assert(ma.take(b.len() as int)[k as int] != mb[k as int]);
            return false;
        }
        k = k + 1;
    }
    assert(ma.take(b.len() as int) =~= mb);
    true
}

} // verus!
