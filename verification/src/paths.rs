//! File-system paths, held as strings. What std's `Path` makes of a string
//! (its file name, parent, components, parsed prefix, a join) is asked of std
//! through the wrappers below; the rest is verified here.
use vstd::prelude::*;

use crate::order::{
    char_order, compare_chars, lemma_char_order_strict_total, lemma_lex_strict_total,
    lemma_pair_strict_total, lex_lt, lex_lt_from, lex_order, order_agrees, pair_order,
    strict_total, Order,
};
use crate::text::{chars_of, string_push};
use std::path::Prefix::{DeviceNS, Disk, Verbatim, VerbatimDisk, VerbatimUNC, UNC};
use std::path::{Component, Path};

verus! {

/// The kind of a component as `std::path::Component` names it.
#[derive(Debug, Clone, Copy, PartialEq, Eq, Structural)]
pub enum ComponentKind {
    Prefix,
    RootDir,
    CurDir,
    ParentDir,
    Normal,
}

/// The kind of a Windows path prefix, in the order in which
/// `std::path::Prefix` declares (and so orders) its variants.
#[derive(Debug, Clone, Copy, PartialEq, Eq, Structural)]
pub enum PrefixKind {
    Verbatim,
    VerbatimUNC,
    VerbatimDisk,
    DeviceNS,
    UNC,
    Disk,
}

/// The kind of one component of a path as paths are compared: a prefix
/// counts by its parsed kind. The variants stand in the order in which std's
/// `std::path::Component` declares (and so orders) its own.
#[derive(Debug, Clone, Copy, PartialEq, Eq, Structural)]
pub enum PartKind {
    Prefix(PrefixKind),
    RootDir,
    CurDir,
    ParentDir,
    Normal,
}

/// A component as paths are compared: its kind and up to two texts. A
/// normal component has its name; a prefix has its parsed fields (a drive
/// letter as a one-character text; the server and the share of a UNC
/// prefix); the others have none.
pub type PartView = (PartKind, (Seq<char>, Seq<char>));

/// Position of a prefix kind in std's declaration order.
pub open spec fn prefix_rank(k: PrefixKind) -> int {
    match k {
        PrefixKind::Verbatim => 0,
        PrefixKind::VerbatimUNC => 1,
        PrefixKind::VerbatimDisk => 2,
        PrefixKind::DeviceNS => 3,
        PrefixKind::UNC => 4,
        PrefixKind::Disk => 5,
    }
}

/// Position of a component kind: every prefix comes before a root, which
/// comes before ".", "..", and a normal name.
pub open spec fn kind_rank(k: PartKind) -> int {
    match k {
        PartKind::Prefix(p) => prefix_rank(p),
        PartKind::RootDir => 6,
        PartKind::CurDir => 7,
        PartKind::ParentDir => 8,
        PartKind::Normal => 9,
    }
}

/// The order of component kinds.
pub open spec fn kind_order() -> spec_fn(PartKind, PartKind) -> bool {
    |a: PartKind, b: PartKind| kind_rank(a) < kind_rank(b)
}

/// The order of path components, as std's derived `Ord` for `Component` and
/// `Prefix` gives it: by kind, then by the texts in turn.
pub open spec fn part_order() -> spec_fn(PartView, PartView) -> bool {
    pair_order(kind_order(), pair_order(lex_order(char_order()), lex_order(char_order())))
}

/// The order of paths: lexicographic over their components, which is how
/// std orders `Path` and `PathBuf`.
pub open spec fn folder_order() -> spec_fn(Seq<PartView>, Seq<PartView>) -> bool {
    lex_order(part_order())
}

pub proof fn lemma_folder_order_strict_total()
    ensures
        strict_total(part_order()),
        strict_total(folder_order()),
{
    lemma_char_order_strict_total();
    lemma_lex_strict_total(char_order());
    assert(strict_total(kind_order())) by {
        assert forall|a: PartKind, b: PartKind| #![trigger (kind_order())(a, b)]
            a != b implies (kind_order())(a, b) || (kind_order())(b, a) by {
            if kind_rank(a) == kind_rank(b) {
                match a {
                    PartKind::Prefix(p) => match b {
                        PartKind::Prefix(q) => {
                            assert(p == q) by {
                                assert(prefix_rank(p) == prefix_rank(q));
                            }
                        },
                        _ => {},
                    },
                    _ => {},
                }
            }
        }
    }
    lemma_pair_strict_total(lex_order(char_order()), lex_order(char_order()));
    lemma_pair_strict_total(kind_order(), pair_order(lex_order(char_order()), lex_order(char_order())));
    lemma_lex_strict_total(part_order());
}

// ---------------------------------------------------------------------------
// What std's `Path` computes, by name
// ---------------------------------------------------------------------------

/// The final component of a path, if it is a normal one (`Path::file_name`).
pub uninterp spec fn path_file_name(path: Seq<char>) -> Option<Seq<char>>;

/// The path without its final component (`Path::parent`).
pub uninterp spec fn path_parent(path: Seq<char>) -> Option<Seq<char>>;

/// `base` with `name` adjoined (`Path::join`).
pub uninterp spec fn path_join(base: Seq<char>, name: Seq<char>) -> Seq<char>;

/// The components of a path (`Path::components`), each as its kind and text.
pub uninterp spec fn path_components(path: Seq<char>) -> Seq<(ComponentKind, Seq<char>)>;

/// The parsed prefix of a path, if it has one (`PrefixComponent::kind`): its
/// kind and its fields, as `PrefixView` describes them.
pub uninterp spec fn path_prefix(path: Seq<char>) -> Option<PrefixView>;

/// A parsed prefix: its kind, its first field (the text of a verbatim or
/// device prefix, the server of a UNC prefix, or the drive letter), and its
/// second field (the share of a UNC prefix; empty otherwise).
pub type PrefixView = (PrefixKind, Seq<char>, Seq<char>);

/// The view of a parsed prefix as a wrapper returns it.
pub open spec fn opt_prefix_view(o: Option<(PrefixKind, (String, String))>) -> Option<PrefixView> {
    match o {
        Some(p) => Some((p.0, (p.1).0@, (p.1).1@)),
        None => None,
    }
}

/// The characters of an optional string.
pub open spec fn opt_chars(o: Option<String>) -> Option<Seq<char>> {
    match o {
        Some(s) => Some(s@),
        None => None,
    }
}

/// `std::path::Path::file_name`, on a path given as a string. The contract
/// claims only that the result is a function of the path (the platform's path
/// syntax being fixed when the program is built).
#[verifier::external_body]
fn std_file_name(path: &str) -> (res: Option<String>)
    ensures
        opt_chars(res) == path_file_name(path@),
{
    match Path::new(path).file_name() {
        Some(name) => Some(name.to_string_lossy().into_owned()),
        None => None,
    }
}

/// `std::path::Path::parent`, on a path given as a string. The contract claims
/// only that the result is a function of the path.
#[verifier::external_body]
fn std_parent(path: &str) -> (res: Option<String>)
    ensures
        opt_chars(res) == path_parent(path@),
{
    match Path::new(path).parent() {
        Some(parent) => Some(parent.to_string_lossy().into_owned()),
        None => None,
    }
}

/// `std::path::Path::join`, on paths given as strings. The contract claims
/// only that the result is a function of the two arguments.
#[verifier::external_body]
fn std_join(base: &str, name: &str) -> (res: String)
    ensures
        res@ == path_join(base@, name@),
{
    Path::new(base).join(name).to_string_lossy().into_owned()
}

/// `std::path::Path::components`, each component given as its kind and its
/// text (`Component::as_os_str`). The contract claims only that the result is
/// a function of the path.
#[verifier::external_body]
fn std_components(path: &str) -> (res: Vec<(ComponentKind, String)>)
    ensures
        res@.len() == path_components(path@).len(),
        forall|i: int|
            0 <= i < res@.len() ==> res@[i].0 == path_components(path@)[i].0 && res@[i].1@
                == path_components(path@)[i].1,
{
    let mut out = Vec::new();
    for part in Path::new(path).components() {
        let kind = match part {
            Component::Prefix(_) => ComponentKind::Prefix,
            Component::RootDir => ComponentKind::RootDir,
            Component::CurDir => ComponentKind::CurDir,
            Component::ParentDir => ComponentKind::ParentDir,
            Component::Normal(_) => ComponentKind::Normal,
        };
        out.push((kind, part.as_os_str().to_string_lossy().into_owned()));
    }
    out
}

/// `std::path::PrefixComponent::kind` for the prefix component with which a
/// path begins (reached through `Path::components`), given as its kind and
/// its fields; `None` when the path has no prefix. The contract claims only
/// that the result is a function of the path.
#[verifier::external_body]
fn std_prefix(path: &str) -> (res: Option<(PrefixKind, (String, String))>)
    ensures
        opt_prefix_view(res) == path_prefix(path@),
{
    match Path::new(path).components().next() {
        Some(Component::Prefix(p)) => Some((match p.kind() {
            Verbatim(_) => PrefixKind::Verbatim,
            VerbatimUNC(..) => PrefixKind::VerbatimUNC,
            VerbatimDisk(_) => PrefixKind::VerbatimDisk,
            DeviceNS(_) => PrefixKind::DeviceNS,
            UNC(..) => PrefixKind::UNC,
            Disk(_) => PrefixKind::Disk,
        }, match p.kind() {
            Verbatim(a) | DeviceNS(a) => (a.to_string_lossy().into_owned(), String::new()),
            VerbatimUNC(a, b) | UNC(a, b) => (a.to_string_lossy().into_owned(), b.to_string_lossy().into_owned()),
            VerbatimDisk(d) | Disk(d) => (String::from(d as char), String::new()),
        })),
        _ => None,
    }
}

/// The file name of `path`, if it has one.
pub fn file_name(path: &str) -> (res: Option<String>)
    ensures
        opt_chars(res) == path_file_name(path@),
{
    std_file_name(path)
}

/// The parent of `path`, if it has one.
pub fn parent(path: &str) -> (res: Option<String>)
    ensures
        opt_chars(res) == path_parent(path@),
{
    std_parent(path)
}

/// `base` joined with `name`.
pub fn join(base: &str, name: &str) -> (res: String)
    ensures
        res@ == path_join(base@, name@),
{
    std_join(base, name)
}

// ---------------------------------------------------------------------------
// Extensions
// ---------------------------------------------------------------------------

/// Index of the last '.' among the first `n` characters of `s`.
pub open spec fn last_dot_before(s: Seq<char>, n: nat) -> Option<nat>
    decreases n,
{
    if n == 0 || n > s.len() {
        None
    } else if s[n - 1] == '.' {
        Some((n - 1) as nat)
    } else {
        last_dot_before(s, (n - 1) as nat)
    }
}

/// The extension of a file name, as std defines it: what follows the last
/// '.', unless there is none or the only one is the first character (and
/// never for "..").
pub open spec fn name_extension(name: Seq<char>) -> Option<Seq<char>> {
    if name == seq!['.', '.'] {
        None
    } else {
        match last_dot_before(name, name.len()) {
            None => None,
            Some(k) => if k == 0 {
                None
            } else {
                Some(name.skip(k + 1 as int))
            },
        }
    }
}

/// The extension of a path (`Path::extension`).
pub open spec fn path_extension(path: Seq<char>) -> Option<Seq<char>> {
    match path_file_name(path) {
        None => None,
        Some(name) => name_extension(name),
    }
}

/// The extension of a file name.
pub fn extension_of_name(name: &str) -> (res: Option<String>)
    ensures
        opt_chars(res) == name_extension(name@),
{
    let cs = chars_of(name);
    if cs.len() == 2 && cs[0] == '.' && cs[1] == '.' {
        assert(name@ =~= seq!['.', '.']);
        return None;
    }
    assert(name@ != seq!['.', '.']) by {
        if name@ == seq!['.', '.'] {
            assert(cs@[0] == '.' && cs@[1] == '.');
        }
    }
    let mut n: usize = cs.len();
    while n > 0 && cs[n - 1] != '.'
        invariant
            cs@ == name@,
            n <= cs@.len(),
            last_dot_before(name@, name@.len()) == last_dot_before(name@, n as nat),
        decreases n,
    {
        n = n - 1;
    }
    if n == 0 {
        None
    } else if n == 1 {
        None
    } else {
        let mut out = String::new();
        let mut i = n;
        while i < cs.len()
            invariant
                cs@ == name@,
                1 <= n <= i <= cs@.len(),
                out@ == name@.subrange(n as int, i as int),
            decreases cs@.len() - i,
        {
            string_push(&mut out, cs[i]);
            assert(name@.subrange(n as int, i as int).push(name@[i as int]) =~= name@.subrange(
                n as int,
                i + 1,
            ));
            i = i + 1;
        }
        assert(name@.skip(n as int) =~= name@.subrange(n as int, cs@.len() as int));
        Some(out)
    }
}

/// The extension of `path` (`Path::extension`).
pub fn extension(path: &str) -> (res: Option<String>)
    ensures
        opt_chars(res) == path_extension(path@),
{
    match file_name(path) {
        None => None,
        Some(name) => extension_of_name(&name),
    }
}

// ---------------------------------------------------------------------------
// Components and their order
// ---------------------------------------------------------------------------

/// The key of one component of `path` as paths are compared, given the
/// path's parsed prefix. std reports a prefix component exactly when it
/// parses a prefix; were a prefix component to come without one, it would be
/// keyed by its text.
pub open spec fn part_key(c: (ComponentKind, Seq<char>), prefix: Option<PrefixView>) -> PartView {
    match c.0 {
        ComponentKind::Prefix => match prefix {
            Some(p) => (PartKind::Prefix(p.0), (p.1, p.2)),
            None => (PartKind::Prefix(PrefixKind::Verbatim), (c.1, Seq::empty())),
        },
        ComponentKind::RootDir => (PartKind::RootDir, (Seq::empty(), Seq::empty())),
        ComponentKind::CurDir => (PartKind::CurDir, (Seq::empty(), Seq::empty())),
        ComponentKind::ParentDir => (PartKind::ParentDir, (Seq::empty(), Seq::empty())),
        ComponentKind::Normal => (PartKind::Normal, (c.1, Seq::empty())),
    }
}

/// The components of a folder as paths are compared and told apart: two
/// folders are the same path exactly when their keys are equal.
pub open spec fn folder_key(path: Seq<char>) -> Seq<PartView> {
    path_components(path).map_values(|c: (ComponentKind, Seq<char>)| part_key(c, path_prefix(path)))
}

/// One component of a path as paths are compared: its kind and its texts.
pub struct PathPart {
    pub kind: PartKind,
    pub text: Vec<char>,
    pub second: Vec<char>,
}

impl View for PathPart {
    type V = PartView;

    open spec fn view(&self) -> PartView {
        (self.kind, (self.text@, self.second@))
    }
}

/// The views of a sequence of components.
pub open spec fn parts_view(parts: Seq<PathPart>) -> Seq<PartView> {
    parts.map_values(|p: PathPart| p@)
}

fn make_part(kind: ComponentKind, text: &str, prefix: &Option<(PrefixKind, (String, String))>) -> (res: PathPart)
    ensures
        res@ == part_key((kind, text@), opt_prefix_view(*prefix)),
{
    match kind {
        ComponentKind::Prefix => match prefix {
            Some(p) => PathPart { kind: PartKind::Prefix(p.0), text: chars_of((p.1).0.as_str()), second: chars_of((p.1).1.as_str()) },
            None => PathPart { kind: PartKind::Prefix(PrefixKind::Verbatim), text: chars_of(text), second: Vec::new() },
        },
        ComponentKind::RootDir => PathPart { kind: PartKind::RootDir, text: Vec::new(), second: Vec::new() },
        ComponentKind::CurDir => PathPart { kind: PartKind::CurDir, text: Vec::new(), second: Vec::new() },
        ComponentKind::ParentDir => PathPart { kind: PartKind::ParentDir, text: Vec::new(), second: Vec::new() },
        ComponentKind::Normal => PathPart { kind: PartKind::Normal, text: chars_of(text), second: Vec::new() },
    }
}

/// The components of `path` as paths are compared.
pub fn components(path: &str) -> (res: Vec<PathPart>)
    ensures
        parts_view(res@) == folder_key(path@),
{
    let raw = std_components(path);
    let prefix = std_prefix(path);
    let ghost key = folder_key(path@);
    let mut out: Vec<PathPart> = Vec::new();
    for i in 0..raw.len()
        invariant
            key == folder_key(path@),
            opt_prefix_view(prefix) == path_prefix(path@),
            raw@.len() == path_components(path@).len(),
            forall|j: int|
                0 <= j < raw@.len() ==> raw@[j].0 == path_components(path@)[j].0 && raw@[j].1@
                    == path_components(path@)[j].1,
            out@.len() == i,
            parts_view(out@) == key.take(i as int),
    {
        let ghost before = out@;
        let part = make_part(raw[i].0, raw[i].1.as_str(), &prefix);
        assert(raw@[i as int].1@ == path_components(path@)[i as int].1);
        assert(part@ == key[i as int]);
        out.push(part);
        assert(out@ == before.push(part));
        assert forall|j: int| 0 <= j < i + 1 implies #[trigger] parts_view(out@)[j] == key.take(i + 1)[j] by {
            if j < i {
                assert(parts_view(out@)[j] == out@[j]@);
                assert(out@[j] == before[j]);
                assert(parts_view(before)[j] == before[j]@);
            }
        }
        assert(parts_view(out@) =~= key.take(i + 1));
    }
    assert(key.take(raw@.len() as int) =~= key);
    out
}

fn prefix_rank_exec(k: PrefixKind) -> (r: u8)
    ensures
        r as int == prefix_rank(k),
{
    match k {
        PrefixKind::Verbatim => 0,
        PrefixKind::VerbatimUNC => 1,
        PrefixKind::VerbatimDisk => 2,
        PrefixKind::DeviceNS => 3,
        PrefixKind::UNC => 4,
        PrefixKind::Disk => 5,
    }
}

fn kind_rank_exec(k: PartKind) -> (r: u8)
    ensures
        r as int == kind_rank(k),
{
    match k {
        PartKind::Prefix(p) => prefix_rank_exec(p),
        PartKind::RootDir => 6,
        PartKind::CurDir => 7,
        PartKind::ParentDir => 8,
        PartKind::Normal => 9,
    }
}

/// Three-way comparison of two path components.
pub fn compare_part(a: &PathPart, b: &PathPart) -> (r: Order)
    ensures
        order_agrees(r, a@, b@, part_order()),
{
    proof {
        lemma_folder_order_strict_total();
    }
    let ra = kind_rank_exec(a.kind);
    let rb = kind_rank_exec(b.kind);
    if ra < rb {
        Order::Less
    } else if rb < ra {
        Order::Greater
    } else {
        assert(a.kind == b.kind) by {
            assert(kind_rank(a.kind) == kind_rank(b.kind));
            match a.kind {
                PartKind::Prefix(p) => match b.kind {
                    PartKind::Prefix(q) => {
                        assert(prefix_rank(p) == prefix_rank(q));
                    },
                    _ => {},
                },
                _ => {},
            }
        }
        proof {
            lemma_char_order_strict_total();
            lemma_lex_strict_total(char_order());
        }
        match compare_chars(&a.text, &b.text) {
            Order::Less => Order::Less,
            Order::Greater => Order::Greater,
            Order::Equal => compare_chars(&a.second, &b.second),
        }
    }
}

/// Three-way comparison of two paths given by their components.
pub fn compare_parts(a: &Vec<PathPart>, b: &Vec<PathPart>) -> (r: Order)
    ensures
        order_agrees(r, parts_view(a@), parts_view(b@), folder_order()),
{
    let ghost lt = part_order();
    let ghost va = parts_view(a@);
    let ghost vb = parts_view(b@);
    proof {
        lemma_folder_order_strict_total();
    }
    let mut i: usize = 0;
    while i < a.len() && i < b.len()
        invariant
            lt == part_order(),
            strict_total(lt),
            va == parts_view(a@),
            vb == parts_view(b@),
            i <= a@.len(),
            i <= b@.len(),
            forall|j: int| 0 <= j < i ==> va[j] == vb[j],
            lex_lt(va, vb, lt) == lex_lt_from(va, vb, i as nat, lt),
            lex_lt(vb, va, lt) == lex_lt_from(vb, va, i as nat, lt),
        decreases a@.len() - i,
    {
        let c = compare_part(&a[i], &b[i]);
        assert(va[i as int] == a@[i as int]@);
        assert(vb[i as int] == b@[i as int]@);
        match c {
            Order::Less => {
                return Order::Less;
            },
            Order::Greater => {
                return Order::Greater;
            },
            Order::Equal => {},
        }
        i = i + 1;
    }
    if a.len() == b.len() {
        assert(va =~= vb);
        Order::Equal
    } else if a.len() < b.len() {
        Order::Less
    } else {
        Order::Greater
    }
}

} // verus!
