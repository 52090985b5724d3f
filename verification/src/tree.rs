//! The bookmark tree: the raw node shape found in a bookmarks document and
//! the validated tree the walker runs on.
//!
//! A bookmarks document is a nest of objects, each with an identifier, a
//! name, a type tag (`"folder"` or `"url"`), a URL on `url` nodes and a child
//! list on `folder` nodes.  [`RawNode`] keeps every field optional, exactly
//! as a document may or may not carry it; validation turns a raw tree into
//! the closed [`BookmarkNode`] shape or reports the first missing field as a
//! [`MalformedNodeError`].

use vstd::prelude::*;

verus! {

/// A bookmark-tree node as a bookmarks document presents it, before
/// validation: every field may be absent.
pub struct RawNode {
    pub id: Option<String>,
    pub name: Option<String>,
    pub node_type: Option<String>,
    pub url: Option<String>,
    pub children: Option<Vec<RawNode>>,
}

/// A validated bookmark-tree node: either a folder with an ordered child
/// list, or a URL leaf.  The identifier is kept on folders only; it decides
/// whether a folder is one of the fixed root groups.
pub enum BookmarkNode {
    Folder { id: String, name: String, children: Vec<BookmarkNode> },
    Bookmark { name: String, url: String },
}

/// Why a raw node failed validation.  The walk of the whole profile is
/// abandoned on the first such error.
#[derive(Clone, Copy, PartialEq, Eq, Structural, Debug)]
pub enum MalformedNodeError {
    /// The node has no identifier.
    MissingId,
    /// The node has no name.
    MissingName,
    /// The node has no type tag.
    MissingType,
    /// The node's type tag is neither `"folder"` nor `"url"`.
    UnknownType,
    /// A `url`-typed node has no URL.
    MissingUrl,
    /// A `folder`-typed node has no child list.
    MissingChildren,
}

/// The fixed identifiers of the top-level root groups (bookmarks bar, other
/// bookmarks, mobile bookmarks).  A folder carrying one of them is a root
/// boundary: the accumulated path is reset to the profile label there.
pub open spec fn is_root_id(id: Seq<char>) -> bool {
    id == "1"@ || id == "2"@ || id == "3"@
}

/// Whether a validated node is a root-group boundary.
pub open spec fn node_is_boundary(n: BookmarkNode) -> bool {
    match n {
        BookmarkNode::Folder { id, .. } => is_root_id(id@),
        BookmarkNode::Bookmark { .. } => false,
    }
}

/// The first validation error in a raw node, in depth-first pre-order, or
/// `None` when the node and its whole subtree are well formed.
pub open spec fn raw_error(raw: RawNode) -> Option<MalformedNodeError>
    decreases raw,
{
    if raw.id is None {
        Some(MalformedNodeError::MissingId)
    } else if raw.name is None {
        Some(MalformedNodeError::MissingName)
    } else if raw.node_type is None {
        Some(MalformedNodeError::MissingType)
    } else if raw.node_type->0@ == "url"@ {
        if raw.url is None {
            Some(MalformedNodeError::MissingUrl)
        } else {
            None
        }
    } else if raw.node_type->0@ == "folder"@ {
        match raw.children {
            None => Some(MalformedNodeError::MissingChildren),
            Some(cs) => raws_error(cs@),
        }
    } else {
        Some(MalformedNodeError::UnknownType)
    }
}

/// The first validation error among a sequence of raw nodes, or `None`.
pub open spec fn raws_error(cs: Seq<RawNode>) -> Option<MalformedNodeError>
    decreases cs,
{
    if cs.len() == 0 {
        None
    } else {
        match raw_error(cs[0]) {
            Some(e) => Some(e),
            None => raws_error(cs.drop_first()),
        }
    }
}

/// Whether a validated node is the faithful reading of a raw node: same
/// shape chosen by the raw type tag, and field for field the same contents.
pub open spec fn node_matches_raw(n: BookmarkNode, raw: RawNode) -> bool
    decreases raw,
{
    match n {
        BookmarkNode::Bookmark { name, url } => {
            &&& raw.id is Some
            &&& raw.name is Some && raw.name->0@ == name@
            &&& raw.node_type is Some && raw.node_type->0@ == "url"@
            &&& raw.url is Some && raw.url->0@ == url@
        },
        BookmarkNode::Folder { id, name, children } => {
            &&& raw.id is Some && raw.id->0@ == id@
            &&& raw.name is Some && raw.name->0@ == name@
            &&& raw.node_type is Some && raw.node_type->0@ == "folder"@
            &&& match raw.children {
                None => false,
                Some(cs) => nodes_match_raws(children@, cs@),
            }
        },
    }
}

/// Element-wise [`node_matches_raw`] over two sequences of equal length.
pub open spec fn nodes_match_raws(ns: Seq<BookmarkNode>, cs: Seq<RawNode>) -> bool
    decreases cs,
{
    &&& ns.len() == cs.len()
    &&& forall|i: int| 0 <= i < cs.len() ==> node_matches_raw(ns[i], cs[i])
}

/// Compares a string against a literal tag.
fn string_eq_lit(s: &String, lit: &str) -> (b: bool)
    ensures
        b == (s@ == lit@),
{
    *s == lit.to_owned()
}

/// Whether an identifier names one of the fixed root groups.
pub fn is_root_marker(id: &String) -> (b: bool)
    ensures
        b == is_root_id(id@),
{
    string_eq_lit(id, "1") || string_eq_lit(id, "2") || string_eq_lit(id, "3")
}

/// Validates one raw node and its whole subtree, producing the closed
/// [`BookmarkNode`] shape, or the first missing-field error in depth-first
/// pre-order.
pub fn parse_node(raw: &RawNode) -> (r: Result<BookmarkNode, MalformedNodeError>)
    ensures
        match r {
            Result::Err(e) => raw_error(*raw) == Some(e),
            Result::Ok(n) => raw_error(*raw) is None && node_matches_raw(n, *raw),
        },
    decreases *raw, 0int,
{
    if raw.id.is_none() {
        return Err(MalformedNodeError::MissingId);
    }
    if raw.name.is_none() {
        return Err(MalformedNodeError::MissingName);
    }
    let t = match &raw.node_type {
        None => {
            return Err(MalformedNodeError::MissingType);
        },
        Some(t) => t,
    };
    let name = raw.name.as_ref().unwrap().clone();
    if string_eq_lit(t, "url") {
        match &raw.url {
            None => Err(MalformedNodeError::MissingUrl),
            Some(u) => Ok(BookmarkNode::Bookmark { name, url: u.clone() }),
        }
    } else if string_eq_lit(t, "folder") {
        match &raw.children {
            None => Err(MalformedNodeError::MissingChildren),
            Some(cs) => {
                let mut children: Vec<BookmarkNode> = Vec::new();
                match parse_nodes_from(cs, 0, &mut children) {
                    Err(e) => {
                        proof {
                            assert(cs@.skip(0) =~= cs@);
                        }
                        Err(e)
                    },
                    Ok(()) => {
                        proof {
                            assert(cs@.skip(0) =~= cs@);
                            assert(children@.skip(0) =~= children@);
                        }
                        Ok(
                            BookmarkNode::Folder {
                                id: raw.id.as_ref().unwrap().clone(),
                                name,
                                children,
                            },
                        )
                    },
                }
            },
        }
    } else {
        Err(MalformedNodeError::UnknownType)
    }
}

/// Validates the raw siblings `cs[i..]` in order, appending the validated
/// nodes to `out`; stops at the first malformed node.
fn parse_nodes_from(cs: &Vec<RawNode>, i: usize, out: &mut Vec<BookmarkNode>) -> (r: Result<
    (),
    MalformedNodeError,
>)
    requires
        i <= cs@.len(),
    ensures
        match r {
            Result::Err(e) => raws_error(cs@.skip(i as int)) == Some(e),
            Result::Ok(_) => {
                &&& raws_error(cs@.skip(i as int)) is None
                &&& old(out)@.is_prefix_of(final(out)@)
                &&& nodes_match_raws(final(out)@.skip(old(out)@.len() as int), cs@.skip(i as int))
            },
        },
    decreases cs@, cs@.len() - i,
{
    if i == cs.len() {
        proof {
            assert(cs@.skip(i as int) =~= Seq::<RawNode>::empty());
            assert(final(out)@.skip(old(out)@.len() as int) =~= Seq::<BookmarkNode>::empty());
        }
        return Ok(());
    }
    let n = match parse_node(&cs[i]) {
        Err(e) => {
            proof {
                assert(cs@.skip(i as int)[0] == cs@[i as int]);
            }
            return Err(e);
        },
        Ok(n) => n,
    };
    out.push(n);
    let ghost mid = out@;
    let r = parse_nodes_from(cs, i + 1, out);
    proof {
        assert(cs@.skip(i as int)[0] == cs@[i as int]);
        assert(cs@.skip(i as int).drop_first() =~= cs@.skip(i as int + 1));
    }
    match r {
        Err(e) => Err(e),
        Ok(()) => {
            proof {
                let done = final(out)@.skip(old(out)@.len() as int);
                let todo = cs@.skip(i as int);
                assert(done[0] == mid[old(out)@.len() as int]);
                assert(done.drop_first() =~= final(out)@.skip(mid.len() as int));
                assert(nodes_match_raws(done, todo)) by {
                    assert(forall|k: int|
                        1 <= k < todo.len() ==> #[trigger] done[k] == done.drop_first()[k - 1]);
                }
            }
            Ok(())
        },
    }
}

/// Validates every root-group entry of a bookmarks document, in order.
pub fn parse_roots(roots: &Vec<RawNode>) -> (r: Result<Vec<BookmarkNode>, MalformedNodeError>)
    ensures
        match r {
            Result::Err(e) => raws_error(roots@) == Some(e),
            Result::Ok(ns) => raws_error(roots@) is None && nodes_match_raws(ns@, roots@),
        },
{
    let mut out: Vec<BookmarkNode> = Vec::new();
    proof {
        assert(roots@.skip(0) =~= roots@);
    }
    match parse_nodes_from(roots, 0, &mut out) {
        Err(e) => Err(e),
        Ok(()) => {
            proof {
                assert(out@.skip(0) =~= out@);
            }
            Ok(out)
        },
    }
}

} // verus!
