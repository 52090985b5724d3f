//! The core: flattening a bookmark tree into records.
//!
//! The walk is depth-first and pre-order.  Each call carries an explicit
//! accumulated-path prefix; entering a root-group boundary resets that
//! prefix to `<label>/`, so the profile label appears exactly once per root
//! group and nothing ever leaks in from a sibling root group or an earlier
//! profile.  A `url` leaf emits one record whose folder path is the prefix
//! handed down by its parent, extended with the leaf's own name.

use vstd::prelude::*;

use crate::record::{record_views, BookmarkRecord, RecordModel};
use crate::record::{source_label, source_tag};
use crate::tree::{is_root_id, raws_error, BookmarkNode, MalformedNodeError, RawNode};
use crate::tree::{is_root_marker, node_matches_raw, nodes_match_raws, parse_roots, raw_error};
use vstd::string::StringExecFns;

verus! {

/// The records emitted for one validated node, given the accumulated path
/// `prefix` handed down by its parent and the profile label.
pub open spec fn node_records(n: BookmarkNode, prefix: Seq<char>, label: Seq<char>) -> Seq<
    RecordModel,
>
    decreases n,
{
    match n {
        BookmarkNode::Bookmark { name, url } => seq![
            RecordModel {
                folder_path: prefix + name@,
                url: url@,
                source_label: source_tag(),
            },
        ],
        BookmarkNode::Folder { id, name, children } => {
            let base = if is_root_id(id@) {
                label + seq!['/']
            } else {
                prefix
            };
            nodes_records(children@, base + name@ + seq!['/'], label)
        },
    }
}

/// The records emitted for a sequence of sibling nodes, in order.
pub open spec fn nodes_records(cs: Seq<BookmarkNode>, prefix: Seq<char>, label: Seq<char>) -> Seq<
    RecordModel,
>
    decreases cs,
{
    if cs.len() == 0 {
        Seq::empty()
    } else {
        node_records(cs[0], prefix, label) + nodes_records(cs.drop_first(), prefix, label)
    }
}

/// The records of a whole profile: every root-group entry walked in order,
/// each starting from an empty accumulated path.
pub open spec fn roots_records(roots: Seq<BookmarkNode>, label: Seq<char>) -> Seq<RecordModel> {
    nodes_records(roots, Seq::empty(), label)
}

/// The records emitted for one raw node, read without validation.
/// Meaningful only when `raw_error(raw)` is `None`.
pub open spec fn raw_records(raw: RawNode, prefix: Seq<char>, label: Seq<char>) -> Seq<RecordModel>
    recommends
        raw_error(raw) is None,
    decreases raw,
{
    if raw.node_type is Some && raw.node_type->0@ == "url"@ {
        seq![
            RecordModel {
                folder_path: prefix + raw.name->0@,
                url: raw.url->0@,
                source_label: source_tag(),
            },
        ]
    } else {
        let base = if raw.id is Some && is_root_id(raw.id->0@) {
            label + seq!['/']
        } else {
            prefix
        };
        match raw.children {
            None => Seq::empty(),
            Some(cs) => raws_records(cs@, base + raw.name->0@ + seq!['/'], label),
        }
    }
}

/// The records emitted for a sequence of raw sibling nodes, in order.
pub open spec fn raws_records(cs: Seq<RawNode>, prefix: Seq<char>, label: Seq<char>) -> Seq<
    RecordModel,
>
    decreases cs,
{
    if cs.len() == 0 {
        Seq::empty()
    } else {
        raw_records(cs[0], prefix, label) + raws_records(cs.drop_first(), prefix, label)
    }
}

/// The records of a whole raw document: every root-group entry walked in
/// order, each starting from an empty accumulated path.
pub open spec fn raw_roots_records(roots: Seq<RawNode>, label: Seq<char>) -> Seq<RecordModel> {
    raws_records(roots, Seq::empty(), label)
}

/// A validated node emits exactly the records its raw reading describes.
pub proof fn lemma_match_records(n: BookmarkNode, raw: RawNode, prefix: Seq<char>, label: Seq<char>)
    requires
        node_matches_raw(n, raw),
    ensures
        node_records(n, prefix, label) == raw_records(raw, prefix, label),
    decreases raw,
{
    match n {
        BookmarkNode::Bookmark { name, url } => {
            assert(node_records(n, prefix, label) =~~= raw_records(raw, prefix, label));
        },
        BookmarkNode::Folder { id, name, children } => {
            reveal_strlit("folder");
            reveal_strlit("url");
            assert("folder"@.len() == 6);
            assert("url"@.len() == 3);
            let cs = raw.children->0;
            let base = if is_root_id(id@) {
                label + seq!['/']
            } else {
                prefix
            };
            assert(base + name@ + seq!['/'] =~= base + raw.name->0@ + seq!['/']);
            lemma_matches_records(children@, cs@, base + name@ + seq!['/'], label);
        },
    }
}

/// Element-wise form of [`lemma_match_records`].
pub proof fn lemma_matches_records(
    ns: Seq<BookmarkNode>,
    cs: Seq<RawNode>,
    prefix: Seq<char>,
    label: Seq<char>,
)
    requires
        nodes_match_raws(ns, cs),
    ensures
        nodes_records(ns, prefix, label) == raws_records(cs, prefix, label),
    decreases cs,
{
    if cs.len() == 0 {
        assert(nodes_records(ns, prefix, label) =~= raws_records(cs, prefix, label));
    } else {
        lemma_match_records(ns[0], cs[0], prefix, label);
        assert(nodes_match_raws(ns.drop_first(), cs.drop_first())) by {
            assert(forall|i: int|
                0 <= i < cs.drop_first().len() ==> node_matches_raw(
                    #[trigger] ns.drop_first()[i],
                    cs.drop_first()[i],
                ) == node_matches_raw(ns[i + 1], cs[i + 1]));
        }
        lemma_matches_records(ns.drop_first(), cs.drop_first(), prefix, label);
    }
}

/// Walks one validated node, appending its records to `out` in depth-first
/// pre-order.  `prefix` is the accumulated path handed down by the parent.
pub fn walk_node(n: &BookmarkNode, prefix: &String, label: &String, out: &mut Vec<BookmarkRecord>)
    ensures
        old(out)@.is_prefix_of(final(out)@),
        record_views(final(out)@.skip(old(out)@.len() as int)) == node_records(
            *n,
            prefix@,
            label@,
        ),
    decreases *n, 0int,
{
    match n {
        BookmarkNode::Bookmark { name, url } => {
            let mut path = prefix.clone();
            path.append(name.as_str());
            let rec = BookmarkRecord {
                folder_path: path,
                url: url.clone(),
                source_label: source_label(),
            };
            out.push(rec);
            proof {
                assert(record_views(final(out)@.skip(old(out)@.len() as int)) =~~= node_records(
                    *n,
                    prefix@,
                    label@,
                ));
            }
        },
        BookmarkNode::Folder { id, name, children } => {
            let mut p = if is_root_marker(id) {
                let mut q = label.clone();
                q.append("/");
                q
            } else {
                prefix.clone()
            };
            p.append(name.as_str());
            p.append("/");
            proof {
                reveal_strlit("/");
                assert("/"@ =~= seq!['/']);
            }
            walk_nodes_from(children, 0, &p, label, out);
            proof {
                assert(children@.skip(0) =~= children@);
            }
        },
    }
}

/// Walks the validated siblings `cs[i..]` in order with a common prefix.
fn walk_nodes_from(
    cs: &Vec<BookmarkNode>,
    i: usize,
    prefix: &String,
    label: &String,
    out: &mut Vec<BookmarkRecord>,
)
    requires
        i <= cs@.len(),
    ensures
        old(out)@.is_prefix_of(final(out)@),
        record_views(final(out)@.skip(old(out)@.len() as int)) == nodes_records(
            cs@.skip(i as int),
            prefix@,
            label@,
        ),
    decreases cs@, cs@.len() - i,
{
    if i == cs.len() {
        proof {
            assert(cs@.skip(i as int) =~= Seq::<BookmarkNode>::empty());
            assert(final(out)@.skip(old(out)@.len() as int) =~= Seq::<BookmarkRecord>::empty());
            assert(record_views(final(out)@.skip(old(out)@.len() as int)) =~= Seq::<
                RecordModel,
            >::empty());
        }
        return ;
    }
    walk_node(&cs[i], prefix, label, out);
    let ghost mid = out@;
    walk_nodes_from(cs, i + 1, prefix, label, out);
    proof {
        assert(cs@.skip(i as int)[0] == cs@[i as int]);
        assert(cs@.skip(i as int).drop_first() =~= cs@.skip(i as int + 1));
        let done = final(out)@.skip(old(out)@.len() as int);
        let first = mid.skip(old(out)@.len() as int);
        let rest = final(out)@.skip(mid.len() as int);
        assert(done =~= first + rest);
        assert(record_views(done) =~= record_views(first) + record_views(rest));
    }
}

/// Walks every root-group entry of a validated document in order, each from
/// an empty accumulated path, appending the records to `out`.
pub fn walk_roots(
    roots: &Vec<BookmarkNode>,
    label: &String,
    out: &mut Vec<BookmarkRecord>,
)
    ensures
        old(out)@.is_prefix_of(final(out)@),
        record_views(final(out)@.skip(old(out)@.len() as int)) == roots_records(roots@, label@),
{
    let empty = String::new();
    walk_nodes_from(roots, 0, &empty, label, out);
    proof {
        assert(roots@.skip(0) =~= roots@);
    }
}

/// Walks a whole raw bookmarks document for one profile: validates every
/// root-group entry, then flattens every bookmark reachable from them.
/// Returns the records in depth-first pre-order, or the first malformed-node
/// error in that order, in which case the profile contributes nothing.
pub fn walk(roots: &Vec<RawNode>, profile_label: &String) -> (r: Result<
    Vec<BookmarkRecord>,
    MalformedNodeError,
>)
    ensures
        match r {
            Result::Err(e) => raws_error(roots@) == Some(e),
            Result::Ok(recs) => raws_error(roots@) is None && record_views(recs@)
                == raw_roots_records(roots@, profile_label@),
        },
{
    let parsed = match parse_roots(roots) {
        Err(e) => {
            return Err(e);
        },
        Ok(ns) => ns,
    };
    let mut out: Vec<BookmarkRecord> = Vec::new();
    walk_roots(&parsed, profile_label, &mut out);
    proof {
        lemma_matches_records(parsed@, roots@, Seq::empty(), profile_label@);
        assert(out@.skip(0) =~= out@);
    }
    Ok(out)
}

} // verus!
