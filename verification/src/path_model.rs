//! Absolute paths modeled as sequences of components.
//!
//! The core never touches the filesystem; the shell around it hands paths in
//! as component lists. A component is either text or — for names that no
//! textual key can carry — raw bytes. Deriving an object key only ever asks
//! two things of a path: whether another path is a prefix of it, and what
//! text its components form when joined with `/`.

use vstd::prelude::*;

verus! {

/// One component of an absolute filesystem path.
#[derive(Debug)]
pub enum PathComp {
    /// A component whose name is valid text.
    Text(String),
    /// A component that is not representable as text, as its raw bytes.
    Raw(Vec<u8>),
}

/// The ghost value of a path component.
pub enum CompView {
    Text(Seq<char>),
    Raw(Seq<u8>),
}

impl View for PathComp {
    type V = CompView;

    open spec fn view(&self) -> CompView {
        match *self {
            PathComp::Text(s) => CompView::Text(s@),
            PathComp::Raw(b) => CompView::Raw(b@),
        }
    }
}

impl Clone for PathComp {
    fn clone(&self) -> (r: Self)
        ensures
            r@ == self@,
    {
        match self {
            PathComp::Text(s) => PathComp::Text(s.clone()),
            PathComp::Raw(b) => PathComp::Raw(clone_bytes(b)),
        }
    }
}

fn clone_bytes(b: &Vec<u8>) -> (r: Vec<u8>)
    ensures
        r@ == b@,
{
    let mut r: Vec<u8> = Vec::new();
    let mut i: usize = 0;
    while i < b.len()
        invariant
            i <= b.len(),
            r@ == b@.subrange(0, i as int),
        decreases b.len() - i,
    {
        r.push(b[i]);
        proof {
            assert(r@ =~= b@.subrange(0, i + 1 as int));
        }
        i += 1;
    }
    proof {
        assert(r@ =~= b@);
    }
    r
}

fn bytes_eq(a: &Vec<u8>, b: &Vec<u8>) -> (r: bool)
    ensures
        r == (a@ == b@),
{
    if a.len() != b.len() {
        return false;
    }
    let mut i: usize = 0;
    while i < a.len()
        invariant
            i <= a.len(),
            a.len() == b.len(),
            forall|j: int| 0 <= j < i ==> a@[j] == b@[j],
        decreases a.len() - i,
    {
        if a[i] != b[i] {
            return false;
        }
        i += 1;
    }
    proof {
        assert(a@ =~= b@);
    }
    true
}

/// Do two components denote the same name? Text never equals raw bytes: the
/// filesystem distinguishes a decodable name from an undecodable one.
pub fn comp_eq(a: &PathComp, b: &PathComp) -> (r: bool)
    ensures
        r == (a@ == b@),
{
    match (a, b) {
        (PathComp::Text(x), PathComp::Text(y)) => x.eq(y),
        (PathComp::Raw(x), PathComp::Raw(y)) => bytes_eq(x, y),
        (PathComp::Text(_), PathComp::Raw(_)) => false,
        (PathComp::Raw(_), PathComp::Text(_)) => false,
    }
}

/// An absolute path, root first, one entry per component.
#[derive(Debug)]
pub struct AbsPath {
    pub comps: Vec<PathComp>,
}

impl View for AbsPath {
    type V = Seq<CompView>;

    open spec fn view(&self) -> Seq<CompView> {
        self.comps@.map_values(|c: PathComp| c@)
    }
}

impl Clone for AbsPath {
    fn clone(&self) -> (r: Self)
        ensures
            r@ == self@,
    {
        let mut comps: Vec<PathComp> = Vec::new();
        let mut i: usize = 0;
        while i < self.comps.len()
            invariant
                i <= self.comps.len(),
                comps@.len() == i as nat,
                forall|j: int| 0 <= j < i ==> comps@[j]@ == #[trigger] self.comps@[j]@,
            decreases self.comps.len() - i,
        {
            comps.push(self.comps[i].clone());
            i += 1;
        }
        let r = AbsPath { comps };
        proof {
            assert(r@ =~= self@);
        }
        r
    }
}

/// Do two paths denote the same location?
pub fn abs_path_eq(a: &AbsPath, b: &AbsPath) -> (r: bool)
    ensures
        r == (a@ == b@),
{
    if a.comps.len() != b.comps.len() {
        proof {
            assert(a@.len() != b@.len());
        }
        return false;
    }
    let mut i: usize = 0;
    while i < a.comps.len()
        invariant
            i <= a.comps.len(),
            a.comps.len() == b.comps.len(),
            forall|j: int| 0 <= j < i ==> a@[j] == b@[j],
        decreases a.comps.len() - i,
    {
        if !comp_eq(&a.comps[i], &b.comps[i]) {
            proof {
                assert(a@[i as int] != b@[i as int]);
            }
            return false;
        }
        i += 1;
    }
    proof {
        assert(a@ =~= b@);
    }
    true
}

/// Is `root` an ancestor of `path`, or the same location?
pub open spec fn is_under(path: Seq<CompView>, root: Seq<CompView>) -> bool {
    root.len() <= path.len() && path.subrange(0, root.len() as int) == root
}

/// Is every component representable as text?
pub open spec fn all_text(comps: Seq<CompView>) -> bool {
    forall|i: int| 0 <= i < comps.len() ==> comps[i] is Text
}

/// The text of one component; meaningful only for text components.
pub open spec fn text_of(c: CompView) -> Seq<char> {
    match c {
        CompView::Text(s) => s,
        CompView::Raw(_) => Seq::empty(),
    }
}

/// The relative key a component sequence forms: the component texts joined
/// with `/`, and empty for the empty sequence.
pub open spec fn rel_key(comps: Seq<CompView>) -> Seq<char>
    decreases comps.len(),
{
    if comps.len() == 0 {
        Seq::empty()
    } else if comps.len() == 1 {
        text_of(comps[0])
    } else {
        text_of(comps[0]) + seq!['/'] + rel_key(comps.subrange(1, comps.len() as int))
    }
}

/// Appending one more component extends the joined key by a separator and
/// the component's text — the shape the joining loop builds in.
pub proof fn lemma_rel_key_push(comps: Seq<CompView>, c: CompView)
    ensures
        rel_key(comps.push(c)) == if comps.len() == 0 {
            text_of(c)
        } else {
            rel_key(comps) + seq!['/'] + text_of(c)
        },
    decreases comps.len(),
{
    let p = comps.push(c);
    if comps.len() == 0 {
        assert(p.len() == 1);
        assert(p[0] == c);
    } else if comps.len() == 1 {
        assert(p.len() == 2);
        assert(p[0] == comps[0]);
        assert(p.subrange(1, 2) =~= seq![c]);
        assert(rel_key(seq![c]) == text_of(c));
    } else {
        assert(p[0] == comps[0]);
        assert(p.subrange(1, p.len() as int) =~= comps.subrange(1, comps.len() as int).push(c));
        lemma_rel_key_push(comps.subrange(1, comps.len() as int), c);
        assert(rel_key(p) == text_of(p[0]) + seq!['/'] + rel_key(p.subrange(1, p.len() as int)));
    }
}

/// Joins the components of `path` from position `from` on into a relative
/// key, or reports that some component is not representable as text.
pub fn join_from(path: &AbsPath, from: usize) -> (r: Option<String>)
    requires
        from <= path.comps@.len(),
    ensures
        ({
            let rest = path@.subrange(from as int, path@.len() as int);
            match r {
                Some(s) => all_text(rest) && s@ == rel_key(rest),
                None => !all_text(rest),
            }
        }),
{
    let ghost rest = path@.subrange(from as int, path@.len() as int);
    let mut key = String::new();
    let mut i: usize = from;
    while i < path.comps.len()
        invariant
            from <= i <= path.comps@.len(),
            path@.len() == path.comps@.len(),
            rest == path@.subrange(from as int, path@.len() as int),
            all_text(path@.subrange(from as int, i as int)),
            key@ == rel_key(path@.subrange(from as int, i as int)),
        decreases path.comps@.len() - i,
    {
        match &path.comps[i] {
            PathComp::Text(s) => {
                proof {
                    reveal_strlit("/");
                }
                if i > from {
                    key.append("/");
                }
                key.append(s.as_str());
                proof {
                    let done = path@.subrange(from as int, i as int);
                    lemma_rel_key_push(done, path@[i as int]);
                    assert(path@.subrange(from as int, i + 1 as int) =~= done.push(
                        path@[i as int],
                    ));
                    assert(text_of(path@[i as int]) == s@);
                    if i > from {
                        assert("/"@ =~= seq!['/']);
                    } else {
                        assert(key@ =~= s@);
                    }
                }
            },
            PathComp::Raw(_) => {
                proof {
                    assert(rest[i - from] == path@[i as int]);
                    assert(!(rest[i - from] is Text));
                }
                return None;
            },
        }
        i += 1;
    }
    proof {
        assert(path@.subrange(from as int, i as int) =~= rest);
    }
    Some(key)
}

} // verus!
