//! The walk's guarantees, stated and proved over the walk model: record
//! count, path shape, and per-profile isolation.

use vstd::prelude::*;

use crate::record::RecordModel;
use crate::tree::{is_root_id, node_is_boundary, raw_error, BookmarkNode, RawNode};
use crate::walk::{node_records, nodes_records, raw_records, roots_records};

verus! {

/// The number of `url`-typed nodes in one node's subtree.
pub open spec fn url_count(n: BookmarkNode) -> nat
    decreases n,
{
    match n {
        BookmarkNode::Bookmark { .. } => 1,
        BookmarkNode::Folder { children, .. } => urls_count(children@),
    }
}

/// The number of `url`-typed nodes in a sequence of sibling subtrees.
pub open spec fn urls_count(cs: Seq<BookmarkNode>) -> nat
    decreases cs,
{
    if cs.len() == 0 {
        0
    } else {
        url_count(cs[0]) + urls_count(cs.drop_first())
    }
}

/// LAW: the walk of one node emits exactly one record per `url`-typed node
/// reachable from it, whatever the accumulated path and label.
pub proof fn lemma_node_record_count(n: BookmarkNode, prefix: Seq<char>, label: Seq<char>)
    ensures
        node_records(n, prefix, label).len() == url_count(n),
    decreases n,
{
    match n {
        BookmarkNode::Bookmark { .. } => {
        },
        BookmarkNode::Folder { id, name, children } => {
            let base = if is_root_id(id@) {
                label + seq!['/']
            } else {
                prefix
            };
            lemma_nodes_record_count(children@, base + name@ + seq!['/'], label);
        },
    }
}

/// Element-wise form of [`lemma_node_record_count`].
pub proof fn lemma_nodes_record_count(cs: Seq<BookmarkNode>, prefix: Seq<char>, label: Seq<char>)
    ensures
        nodes_records(cs, prefix, label).len() == urls_count(cs),
    decreases cs,
{
    if cs.len() == 0 {
    } else {
        lemma_node_record_count(cs[0], prefix, label);
        lemma_nodes_record_count(cs.drop_first(), prefix, label);
    }
}

/// LAW: the walk of a whole well-formed document emits exactly one record
/// per `url`-typed node reachable from its root groups.
pub proof fn lemma_roots_record_count(roots: Seq<BookmarkNode>, label: Seq<char>)
    ensures
        roots_records(roots, label).len() == urls_count(roots),
{
    lemma_nodes_record_count(roots, Seq::empty(), label);
}

/// LAW: a folder whose child list is empty contributes no records, wherever
/// it stands in the tree.
pub proof fn lemma_empty_folder(n: BookmarkNode, prefix: Seq<char>, label: Seq<char>)
    requires
        n is Folder,
        n->children@.len() == 0,
    ensures
        node_records(n, prefix, label) == Seq::<RecordModel>::empty(),
{
    assert(node_records(n, prefix, label) =~= Seq::<RecordModel>::empty());
}

/// LAW: a raw folder node whose child list is present but empty is not an
/// error either: it validates, and its walk emits nothing.
pub proof fn lemma_empty_folder_raw(raw: RawNode, prefix: Seq<char>, label: Seq<char>)
    requires
        raw.id is Some,
        raw.name is Some,
        raw.node_type is Some,
        raw.node_type->0@ == "folder"@,
        raw.children is Some,
        raw.children->0@.len() == 0,
    ensures
        raw_error(raw) is None,
        raw_records(raw, prefix, label) == Seq::<RecordModel>::empty(),
{
    reveal_strlit("folder");
    reveal_strlit("url");
    assert("folder"@.len() == 6);
    assert("url"@.len() == 3);
    assert(raw_records(raw, prefix, label) =~= Seq::<RecordModel>::empty());
}

/// How many times `c` occurs in `s`.
pub open spec fn count_char(s: Seq<char>, c: char) -> nat
    decreases s,
{
    if s.len() == 0 {
        0
    } else {
        (if s[0] == c {
            1nat
        } else {
            0nat
        }) + count_char(s.drop_first(), c)
    }
}

/// Occurrence counts add up over concatenation.
pub proof fn lemma_count_char_concat(a: Seq<char>, b: Seq<char>, c: char)
    ensures
        count_char(a + b, c) == count_char(a, c) + count_char(b, c),
    decreases a,
{
    if a.len() == 0 {
        assert(a + b =~= b);
    } else {
        assert((a + b).drop_first() =~= a.drop_first() + b);
        lemma_count_char_concat(a.drop_first(), b, c);
    }
}

/// A string with no `/` in it.
pub open spec fn slash_free(s: Seq<char>) -> bool {
    forall|i: int| 0 <= i < s.len() ==> s[i] != '/'
}

/// A slash-free string contains no slash.
pub proof fn lemma_slash_free_count(s: Seq<char>)
    requires
        slash_free(s),
    ensures
        count_char(s, '/') == 0,
    decreases s,
{
    if s.len() > 0 {
        assert(slash_free(s.drop_first()));
        lemma_slash_free_count(s.drop_first());
    }
}

/// Every name in the subtree of `n` is slash-free.
pub open spec fn node_names_slash_free(n: BookmarkNode) -> bool
    decreases n,
{
    match n {
        BookmarkNode::Bookmark { name, .. } => slash_free(name@),
        BookmarkNode::Folder { name, children, .. } => slash_free(name@)
            && nodes_names_slash_free(children@),
    }
}

/// Element-wise [`node_names_slash_free`].
pub open spec fn nodes_names_slash_free(cs: Seq<BookmarkNode>) -> bool
    decreases cs,
{
    forall|i: int| 0 <= i < cs.len() ==> node_names_slash_free(cs[i])
}

/// For each record the walk of `n` emits, in order: the number of path
/// segments of that record, counting one segment per ancestor folder from
/// the nearest root-group boundary down and one for the bookmark's own
/// name.  `d` is the segment count a leaf standing directly at this level
/// would have.
pub open spec fn node_depths(n: BookmarkNode, d: nat) -> Seq<nat>
    decreases n,
{
    match n {
        BookmarkNode::Bookmark { .. } => seq![d],
        BookmarkNode::Folder { id, children, .. } => nodes_depths(
            children@,
            if is_root_id(id@) {
                2
            } else {
                d + 1
            },
        ),
    }
}

/// Element-wise [`node_depths`].
pub open spec fn nodes_depths(cs: Seq<BookmarkNode>, d: nat) -> Seq<nat>
    decreases cs,
{
    if cs.len() == 0 {
        Seq::empty()
    } else {
        node_depths(cs[0], d) + nodes_depths(cs.drop_first(), d)
    }
}

/// One seq is a prefix of a longer one with more on the end.
proof fn lemma_prefix_extend(a: Seq<char>, b: Seq<char>, c: Seq<char>)
    requires
        a.is_prefix_of(b),
    ensures
        a.is_prefix_of(b + c),
{
    assert((b + c).subrange(0, a.len() as int) =~= b.subrange(0, a.len() as int));
}

/// The induction behind the path-shape law, for one node.
proof fn lemma_node_path_shape(n: BookmarkNode, prefix: Seq<char>, label: Seq<char>, d: nat)
    requires
        node_names_slash_free(n),
        slash_free(label),
        count_char(prefix, '/') == d,
    ensures
        node_records(n, prefix, label).len() == node_depths(n, d).len(),
        forall|j: int|
            0 <= j < node_records(n, prefix, label).len() ==> count_char(
                #[trigger] node_records(n, prefix, label)[j].folder_path,
                '/',
            ) == node_depths(n, d)[j],
        ((label + seq!['/']).is_prefix_of(prefix) || node_is_boundary(n)) ==> forall|j: int|
            0 <= j < node_records(n, prefix, label).len() ==> (label + seq!['/']).is_prefix_of(
                #[trigger] node_records(n, prefix, label)[j].folder_path,
            ),
    decreases n,
{
    match n {
        BookmarkNode::Bookmark { name, url } => {
            lemma_count_char_concat(prefix, name@, '/');
            lemma_slash_free_count(name@);
            if (label + seq!['/']).is_prefix_of(prefix) {
                lemma_prefix_extend(label + seq!['/'], prefix, name@);
            }
        },
        BookmarkNode::Folder { id, name, children } => {
            let base = if is_root_id(id@) {
                label + seq!['/']
            } else {
                prefix
            };
            let p2 = base + name@ + seq!['/'];
            let d2: nat = if is_root_id(id@) {
                2
            } else {
                d + 1
            };
            lemma_count_char_concat(base, name@, '/');
            lemma_count_char_concat(base + name@, seq!['/'], '/');
            lemma_slash_free_count(name@);
            lemma_slash_free_count(label);
            if is_root_id(id@) {
                lemma_count_char_concat(label, seq!['/'], '/');
                lemma_prefix_extend(label + seq!['/'], label + seq!['/'], name@);
                lemma_prefix_extend(label + seq!['/'], label + seq!['/'] + name@, seq!['/']);
            } else if (label + seq!['/']).is_prefix_of(prefix) {
                lemma_prefix_extend(label + seq!['/'], prefix, name@);
                lemma_prefix_extend(label + seq!['/'], prefix + name@, seq!['/']);
            }
            assert(count_char(seq!['/'], '/') == 1) by {
                assert(count_char(Seq::<char>::empty(), '/') == 0);
                assert(seq!['/'].drop_first() =~= Seq::<char>::empty());
                assert(seq!['/'][0] == '/');
            }
            lemma_nodes_path_shape(children@, p2, label, d2);
        },
    }
}

/// The induction behind the path-shape law, for sibling lists.
proof fn lemma_nodes_path_shape(cs: Seq<BookmarkNode>, prefix: Seq<char>, label: Seq<char>, d: nat)
    requires
        nodes_names_slash_free(cs),
        slash_free(label),
        count_char(prefix, '/') == d,
    ensures
        nodes_records(cs, prefix, label).len() == nodes_depths(cs, d).len(),
        forall|j: int|
            0 <= j < nodes_records(cs, prefix, label).len() ==> count_char(
                #[trigger] nodes_records(cs, prefix, label)[j].folder_path,
                '/',
            ) == nodes_depths(cs, d)[j],
        ((label + seq!['/']).is_prefix_of(prefix) || (forall|i: int|
            0 <= i < cs.len() ==> node_is_boundary(#[trigger] cs[i]))) ==> forall|j: int|
            0 <= j < nodes_records(cs, prefix, label).len() ==> (label + seq!['/']).is_prefix_of(
                #[trigger] nodes_records(cs, prefix, label)[j].folder_path,
            ),
    decreases cs,
{
    if cs.len() == 0 {
    } else {
        assert(nodes_names_slash_free(cs.drop_first())) by {
            assert(forall|i: int|
                0 <= i < cs.drop_first().len() ==> #[trigger] cs.drop_first()[i] == cs[i + 1]);
        }
        lemma_node_path_shape(cs[0], prefix, label, d);
        lemma_nodes_path_shape(cs.drop_first(), prefix, label, d);
        let head = node_records(cs[0], prefix, label);
        let tail = nodes_records(cs.drop_first(), prefix, label);
        assert(forall|j: int|
            0 <= j < tail.len() ==> (head + tail)[head.len() + j] == #[trigger] tail[j]);
        let dh = node_depths(cs[0], d);
        let dt = nodes_depths(cs.drop_first(), d);
        assert(forall|j: int|
            0 <= j < dt.len() ==> (dh + dt)[dh.len() + j] == #[trigger] dt[j]);
        assert(forall|i: int|
            0 <= i < cs.drop_first().len() ==> #[trigger] cs.drop_first()[i] == cs[i + 1]);
    }
}

/// LAW: when every root-group entry is a root boundary and no folder or
/// bookmark name (nor the label) contains `/`, every emitted record's folder
/// path starts with `<label>/`, and the number of `/` in it is exactly its
/// segment count: one per ancestor folder from its root-group boundary down,
/// plus one for the bookmark's own name.
pub proof fn lemma_path_shape(roots: Seq<BookmarkNode>, label: Seq<char>)
    requires
        forall|i: int| 0 <= i < roots.len() ==> node_is_boundary(#[trigger] roots[i]),
        nodes_names_slash_free(roots),
        slash_free(label),
    ensures
        roots_records(roots, label).len() == nodes_depths(roots, 0).len(),
        forall|j: int|
            0 <= j < roots_records(roots, label).len() ==> (label + seq!['/']).is_prefix_of(
                #[trigger] roots_records(roots, label)[j].folder_path,
            ),
        forall|j: int|
            0 <= j < roots_records(roots, label).len() ==> count_char(
                #[trigger] roots_records(roots, label)[j].folder_path,
                '/',
            ) == nodes_depths(roots, 0)[j],
{
    lemma_nodes_path_shape(roots, Seq::empty(), label, 0);
}

/// The names of all folders and bookmarks in one subtree.
pub open spec fn node_names(n: BookmarkNode) -> Set<Seq<char>>
    decreases n,
{
    match n {
        BookmarkNode::Bookmark { name, .. } => Set::empty().insert(name@),
        BookmarkNode::Folder { name, children, .. } => nodes_names(children@).insert(name@),
    }
}

/// The names of all folders and bookmarks in a sequence of subtrees.
pub open spec fn nodes_names(cs: Seq<BookmarkNode>) -> Set<Seq<char>>
    decreases cs,
{
    if cs.len() == 0 {
        Set::empty()
    } else {
        node_names(cs[0]).union(nodes_names(cs.drop_first()))
    }
}

/// The given segments, each followed by one `/`.
pub open spec fn flat_segs(segs: Seq<Seq<char>>) -> Seq<char>
    decreases segs,
{
    if segs.len() == 0 {
        Seq::empty()
    } else {
        segs[0] + seq!['/'] + flat_segs(segs.drop_first())
    }
}

/// Every segment is drawn from `names`.
pub open spec fn all_in(segs: Seq<Seq<char>>, names: Set<Seq<char>>) -> bool {
    forall|i: int| 0 <= i < segs.len() ==> names.contains(#[trigger] segs[i])
}

/// A folder path built from one profile's own material alone: the label,
/// a slash, ancestor-folder segments each followed by a slash, and a leaf
/// name, with every segment and the leaf drawn from `names`.
pub open spec fn from_profile(path: Seq<char>, label: Seq<char>, names: Set<Seq<char>>) -> bool {
    exists|segs: Seq<Seq<char>>, leaf: Seq<char>|
        all_in(segs, names) && names.contains(leaf) && path == (label + seq!['/']) + flat_segs(
            segs,
        ) + leaf
}

/// An accumulated path of the form the walk maintains inside a root group.
pub open spec fn prefix_form(prefix: Seq<char>, label: Seq<char>, names: Set<Seq<char>>) -> bool {
    exists|segs: Seq<Seq<char>>|
        all_in(segs, names) && prefix == (label + seq!['/']) + flat_segs(segs)
}

/// Appending a segment extends the flattened form on the right.
proof fn lemma_flat_push(segs: Seq<Seq<char>>, x: Seq<char>)
    ensures
        flat_segs(segs.push(x)) == flat_segs(segs) + x + seq!['/'],
    decreases segs,
{
    if segs.len() == 0 {
        assert(flat_segs(Seq::<Seq<char>>::empty()) =~= Seq::<char>::empty());
        assert(segs.push(x).drop_first() =~= Seq::<Seq<char>>::empty());
        assert(segs.push(x)[0] == x);
        assert(flat_segs(segs.push(x)) =~= flat_segs(segs) + x + seq!['/']);
    } else {
        assert(segs.push(x).drop_first() =~= segs.drop_first().push(x));
        assert(segs.push(x)[0] == segs[0]);
        lemma_flat_push(segs.drop_first(), x);
        assert(flat_segs(segs.push(x)) == segs[0] + seq!['/'] + (flat_segs(segs.drop_first()) + x
            + seq!['/']));
        assert(segs[0] + seq!['/'] + (flat_segs(segs.drop_first()) + x + seq!['/']) =~= (segs[0]
            + seq!['/'] + flat_segs(segs.drop_first())) + x + seq!['/']);
    }
}

/// The induction behind the isolation law, for one node.
proof fn lemma_node_provenance(
    n: BookmarkNode,
    prefix: Seq<char>,
    label: Seq<char>,
    names: Set<Seq<char>>,
)
    requires
        node_names(n).subset_of(names),
        prefix_form(prefix, label, names) || node_is_boundary(n),
    ensures
        forall|j: int|
            0 <= j < node_records(n, prefix, label).len() ==> from_profile(
                #[trigger] node_records(n, prefix, label)[j].folder_path,
                label,
                names,
            ),
    decreases n,
{
    match n {
        BookmarkNode::Bookmark { name, url } => {
            let segs = choose|segs: Seq<Seq<char>>|
                all_in(segs, names) && prefix == (label + seq!['/']) + flat_segs(segs);
            assert(node_names(n).contains(name@));
            assert(names.contains(name@));
            assert(node_records(n, prefix, label)[0].folder_path == prefix + name@);
            assert(from_profile(prefix + name@, label, names)) by {
                assert(all_in(segs, names) && names.contains(name@) && prefix + name@ == (label
                    + seq!['/']) + flat_segs(segs) + name@);
            }
            assert forall|j: int| 0 <= j < node_records(n, prefix, label).len() implies from_profile(
                node_records(n, prefix, label)[j].folder_path,
                label,
                names,
            ) by {
                assert(j == 0);
            }
        },
        BookmarkNode::Folder { id, name, children } => {
            let base = if is_root_id(id@) {
                label + seq!['/']
            } else {
                prefix
            };
            let p2 = base + name@ + seq!['/'];
            assert(node_names(n).contains(name@));
            assert(names.contains(name@));
            if is_root_id(id@) {
                assert(flat_segs(seq![name@]) == name@ + seq!['/']) by {
                    assert(seq![name@][0] == name@);
                    assert(seq![name@].drop_first() =~= Seq::<Seq<char>>::empty());
                    assert(flat_segs(Seq::<Seq<char>>::empty()) =~= Seq::<char>::empty());
                    assert(flat_segs(seq![name@]) =~= name@ + seq!['/']);
                }
                assert(prefix_form(p2, label, names)) by {
                    assert(all_in(seq![name@], names));
                    assert(p2 =~= (label + seq!['/']) + flat_segs(seq![name@]));
                }
            } else {
                let segs = choose|segs: Seq<Seq<char>>|
                    all_in(segs, names) && prefix == (label + seq!['/']) + flat_segs(segs);
                lemma_flat_push(segs, name@);
                assert(prefix_form(p2, label, names)) by {
                    assert(all_in(segs.push(name@), names)) by {
                        assert(forall|i: int|
                            0 <= i < segs.len() ==> #[trigger] segs.push(name@)[i] == segs[i]);
                        assert(segs.push(name@)[segs.len() as int] == name@);
                    }
                    assert(p2 =~= (label + seq!['/']) + flat_segs(segs.push(name@)));
                }
            }
            assert(nodes_names(children@).subset_of(names));
            lemma_nodes_provenance(children@, p2, label, names);
            assert(node_records(n, prefix, label) == nodes_records(children@, p2, label));
        },
    }
}

/// The induction behind the isolation law, for sibling lists.
proof fn lemma_nodes_provenance(
    cs: Seq<BookmarkNode>,
    prefix: Seq<char>,
    label: Seq<char>,
    names: Set<Seq<char>>,
)
    requires
        nodes_names(cs).subset_of(names),
        prefix_form(prefix, label, names) || (forall|i: int|
            0 <= i < cs.len() ==> node_is_boundary(#[trigger] cs[i])),
    ensures
        forall|j: int|
            0 <= j < nodes_records(cs, prefix, label).len() ==> from_profile(
                #[trigger] nodes_records(cs, prefix, label)[j].folder_path,
                label,
                names,
            ),
    decreases cs,
{
    if cs.len() > 0 {
        assert(node_names(cs[0]).subset_of(names));
        lemma_node_provenance(cs[0], prefix, label, names);
        assert(nodes_names(cs.drop_first()).subset_of(names));
        assert(forall|i: int|
            0 <= i < cs.drop_first().len() ==> #[trigger] cs.drop_first()[i] == cs[i + 1]);
        lemma_nodes_provenance(cs.drop_first(), prefix, label, names);
        let head = node_records(cs[0], prefix, label);
        let tail = nodes_records(cs.drop_first(), prefix, label);
        assert(forall|j: int|
            0 <= j < tail.len() ==> (head + tail)[head.len() + j] == #[trigger] tail[j]);
    }
}

/// LAW: every record emitted for one profile is built from that profile's
/// own label and the names occurring in that profile's own tree, and from
/// nothing else.  In particular, walking profile A and then profile B can
/// never produce a record for B whose path carries a folder name that occurs
/// only in A's tree: B's records draw their segments from B's names alone.
pub proof fn lemma_profile_isolation(roots: Seq<BookmarkNode>, label: Seq<char>)
    requires
        forall|i: int| 0 <= i < roots.len() ==> node_is_boundary(#[trigger] roots[i]),
    ensures
        forall|j: int|
            0 <= j < roots_records(roots, label).len() ==> from_profile(
                #[trigger] roots_records(roots, label)[j].folder_path,
                label,
                nodes_names(roots),
            ),
{
    lemma_nodes_provenance(roots, Seq::empty(), label, nodes_names(roots));
}

} // verus!
