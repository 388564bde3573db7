use vstd::prelude::*;

use crate::raw::{
    mpv_event_property, mpv_byte_array, mpv_node, mpv_node_list, NodeData, MPV_FORMAT_NODE, MPV_FORMAT_BYTE_ARRAY, MPV_FORMAT_DOUBLE, MPV_FORMAT_FLAG,
    MPV_FORMAT_INT64, MPV_FORMAT_NODE_ARRAY, MPV_FORMAT_NODE_MAP, MPV_FORMAT_OSD_STRING,
    MPV_FORMAT_STRING,
};
use crate::text::{text_bytes, text_from_bytes, utf8_text};

verus! {

broadcast use vstd::std_specs::vec::group_vec_axioms, vstd::seq::group_seq_axioms;

/// An owned value of the engine's dynamically typed format.
#[derive(Debug)]
pub enum Node {
    /// A raw property string.
    String(String),
    /// A property string formatted for display.
    OsdString(String),
    Flag(bool),
    Int64(i64),
    /// A double, as its IEEE-754 bit pattern.
    Float64(u64),
    Array(Vec<Node>),
    ByteArray(Vec<u8>),
    /// Keyed children; no key occurs twice, and their order carries no meaning.
    NodeMap(Vec<(String, Node)>),
    /// A boxed node; it cannot be written to the engine.
    Node(Box<Node>),
}

/// The mathematical value of a `Node`.
pub enum NodeView {
    String(Seq<char>),
    OsdString(Seq<char>),
    Flag(bool),
    Int64(i64),
    Float64(u64),
    Array(Seq<NodeView>),
    ByteArray(Seq<u8>),
    NodeMap(Map<Seq<char>, NodeView>),
    Boxed(Box<NodeView>),
}

pub open spec fn node_view(n: Node) -> NodeView
    decreases n,
{
    match n {
        Node::String(s) => NodeView::String(s@),
        Node::OsdString(s) => NodeView::OsdString(s@),
        Node::Flag(b) => NodeView::Flag(b),
        Node::Int64(i) => NodeView::Int64(i),
        Node::Float64(d) => NodeView::Float64(d),
        Node::Array(v) => NodeView::Array(nodes_view(v@)),
        Node::ByteArray(b) => NodeView::ByteArray(b@),
        Node::NodeMap(v) => NodeView::NodeMap(entries_view(v@)),
        Node::Node(b) => NodeView::Boxed(Box::new(node_view(*b))),
    }
}

pub open spec fn nodes_view(s: Seq<Node>) -> Seq<NodeView>
    decreases s,
{
    if s.len() == 0 {
        Seq::empty()
    } else {
        nodes_view(s.drop_last()).push(node_view(s.last()))
    }
}

/// The map that a list of entries stands for; a later entry wins over an
/// earlier one with the same key.
pub open spec fn entries_view(s: Seq<(String, Node)>) -> Map<Seq<char>, NodeView>
    decreases s,
{
    if s.len() == 0 {
        Map::empty()
    } else {
        entries_view(s.drop_last()).insert(s.last().0@, node_view(s.last().1))
    }
}

impl View for Node {
    type V = NodeView;

    open spec fn view(&self) -> NodeView {
        node_view(*self)
    }
}

pub open spec fn opt_view(r: Option<Node>) -> Option<NodeView> {
    match r {
        Some(n) => Some(node_view(n)),
        None => None,
    }
}

/// What reading a foreign node gives: its scalar, string or buffer, or its
/// children without those that cannot be read; nothing for an unknown tag, a
/// null header or text that is not UTF-8.
pub open spec fn decode_spec(n: mpv_node) -> Option<NodeView>
    decreases n,
{
    if n.format == MPV_FORMAT_STRING || n.format == MPV_FORMAT_OSD_STRING {
        match n.u {
            NodeData::Text(b) => match utf8_text(b@) {
                Some(t) => if n.format == MPV_FORMAT_STRING {
                    Some(NodeView::String(t))
                } else {
                    Some(NodeView::OsdString(t))
                },
                None => None,
            },
            _ => None,
        }
    } else if n.format == MPV_FORMAT_FLAG {
        match n.u {
            NodeData::Flag(f) => Some(NodeView::Flag(f != 0)),
            _ => None,
        }
    } else if n.format == MPV_FORMAT_INT64 {
        match n.u {
            NodeData::Int64(i) => Some(NodeView::Int64(i)),
            _ => None,
        }
    } else if n.format == MPV_FORMAT_DOUBLE {
        match n.u {
            NodeData::Double(d) => Some(NodeView::Float64(d)),
            _ => None,
        }
    } else if n.format == MPV_FORMAT_BYTE_ARRAY {
        match n.u {
            NodeData::ByteArray(Some(ba)) => Some(NodeView::ByteArray(ba.data@)),
            _ => None,
        }
    } else if n.format == MPV_FORMAT_NODE_ARRAY {
        match n.u {
            NodeData::List(Some(l)) => Some(NodeView::Array(decode_values(l.values@))),
            _ => None,
        }
    } else if n.format == MPV_FORMAT_NODE_MAP {
        match n.u {
            NodeData::List(Some(l)) => Some(NodeView::NodeMap(decode_entries(l.values@, l.keys@))),
            _ => None,
        }
    } else {
        None
    }
}

/// The readable ones among a list's values, in order.
pub open spec fn decode_values(s: Seq<mpv_node>) -> Seq<NodeView>
    decreases s,
{
    if s.len() == 0 {
        Seq::empty()
    } else {
        let prev = decode_values(s.drop_last());
        match decode_spec(s.last()) {
            Some(v) => prev.push(v),
            None => prev,
        }
    }
}

/// The entries of a map whose value and key can both be read, inserted in
/// order.
pub open spec fn decode_entries(s: Seq<mpv_node>, keys: Seq<Vec<u8>>) -> Map<Seq<char>, NodeView>
    decreases s,
{
    if s.len() == 0 {
        Map::empty()
    } else {
        let prev = decode_entries(s.drop_last(), keys);
        let i = s.len() - 1;
        match decode_spec(s.last()) {
            Some(v) => if i < keys.len() {
                match utf8_text(keys[i]@) {
                    Some(k) => prev.insert(k, v),
                    None => prev,
                }
            } else {
                prev
            },
            None => prev,
        }
    }
}


/// No key occurs twice among the entries.
pub open spec fn keys_unique(s: Seq<(String, Node)>) -> bool {
    forall|i: int, j: int|
        0 <= i < s.len() && 0 <= j < s.len() && i != j ==> #[trigger] s[i].0@ != #[trigger] s[j].0@
}

/// The invariant of a node: no map anywhere in it holds a key twice.
pub open spec fn well_formed(n: Node) -> bool
    decreases n,
{
    match n {
        Node::Array(v) => forall|i: int| 0 <= i < v.len() ==> well_formed(#[trigger] v@[i]),
        Node::NodeMap(v) => keys_unique(v@) && forall|i: int|
            0 <= i < v.len() ==> well_formed(#[trigger] v@[i].1),
        Node::Node(b) => well_formed(*b),
        _ => true,
    }
}

/// Replacing the entry of a key is inserting that key into the map.
proof fn lemma_entries_update(s: Seq<(String, Node)>, j: int, e: (String, Node))
    requires
        keys_unique(s),
        0 <= j < s.len(),
        s[j].0@ == e.0@,
    ensures
        entries_view(s.update(j, e)) == entries_view(s).insert(e.0@, node_view(e.1)),
    decreases s.len(),
{
    let t = s.update(j, e);
    if j == s.len() - 1 {
        assert(t.drop_last() =~= s.drop_last());
        assert(entries_view(t) =~= entries_view(s).insert(e.0@, node_view(e.1)));
    } else {
        let d = s.drop_last();
        assert(t.drop_last() =~= d.update(j, e));
        assert(keys_unique(d)) by {
            assert forall|a: int, b: int|
                0 <= a < d.len() && 0 <= b < d.len() && a != b implies #[trigger] d[a].0@
                != #[trigger] d[b].0@ by {
                assert(d[a] == s[a] && d[b] == s[b]);
            }
        }
        lemma_entries_update(d, j, e);
        assert(s[s.len() - 1].0@ != s[j].0@);
        assert(entries_view(t) =~= entries_view(s).insert(e.0@, node_view(e.1)));
    }
}

/// Insert an entry, replacing the one with the same key if there is one.
fn put_entry(entries: &mut Vec<(String, Node)>, k: String, v: Node)
    requires
        keys_unique(old(entries)@),
        forall|i: int| 0 <= i < old(entries)@.len() ==> well_formed(#[trigger] old(entries)@[i].1),
        well_formed(v),
    ensures
        keys_unique(final(entries)@),
        forall|i: int| 0 <= i < final(entries)@.len() ==> well_formed(#[trigger] final(entries)@[i].1),
        entries_view(final(entries)@) == entries_view(old(entries)@).insert(k@, node_view(v)),
{
    let ghost s0 = entries@;
    let n = entries.len();
    let mut j: usize = 0;
    let mut found = false;
    while j < n && !found
        invariant
            n == entries.len(),
            j <= n,
            entries@ == s0,
            forall|i: int| 0 <= i < s0.len() ==> well_formed(#[trigger] s0[i].1),
            found ==> j < n && s0[j as int].0@ == k@,
            forall|i: int| 0 <= i < j ==> #[trigger] s0[i].0@ != k@,
        decreases n - j + (if found { 0int } else { 1int }),
    {
        if entries[j].0 == k {
            found = true;
        } else {
            j += 1;
        }
    }
    let ghost e = (k, v);
    if found {
        proof {
            lemma_entries_update(s0, j as int, e);
        }
        entries.set(j, (k, v));
        assert(entries@ =~= s0.update(j as int, e));
        assert(forall|i: int| 0 <= i < entries@.len() && i != j ==> entries@[i] == s0[i]);
        assert(keys_unique(entries@)) by {
            assert forall|a: int, b: int|
                0 <= a < entries@.len() && 0 <= b < entries@.len() && a != b implies #[trigger] entries@[a].0@
                != #[trigger] entries@[b].0@ by {
                if a != j && b != j {
                    assert(entries@[a] == s0[a] && entries@[b] == s0[b]);
                } else if a == j {
                    assert(entries@[b] == s0[b]);
                    assert(s0[j as int].0@ != s0[b].0@);
                } else {
                    assert(entries@[a] == s0[a]);
                    assert(s0[j as int].0@ != s0[a].0@);
                }
            }
        }
    } else {
        entries.push((k, v));
        assert(entries@.drop_last() =~= s0);
        assert(forall|i: int| 0 <= i < s0.len() ==> entries@[i] == s0[i]);
        assert(keys_unique(entries@)) by {
            assert forall|a: int, b: int|
                0 <= a < entries@.len() && 0 <= b < entries@.len() && a != b implies #[trigger] entries@[a].0@
                != #[trigger] entries@[b].0@ by {
                if a < n && b < n {
                    assert(entries@[a] == s0[a] && entries@[b] == s0[b]);
                } else if a == n {
                    assert(entries@[b] == s0[b]);
                    assert(s0[b].0@ != k@);
                } else {
                    assert(entries@[a] == s0[a]);
                    assert(s0[a].0@ != k@);
                }
            }
        }
    }
}

/// Read a foreign node into an owned one.
fn decode_node(node: &mpv_node) -> (r: Option<Node>)
    ensures
        opt_view(r) == decode_spec(*node),
        r matches Some(x) ==> well_formed(x),
    decreases node,
{
    let f = node.format;
    match &node.u {
        NodeData::Text(b) => {
            if f == MPV_FORMAT_STRING || f == MPV_FORMAT_OSD_STRING {
                match text_from_bytes(b.clone()) {
                    Some(t) => if f == MPV_FORMAT_STRING {
                        Some(Node::String(t))
                    } else {
                        Some(Node::OsdString(t))
                    },
                    None => None,
                }
            } else {
                None
            }
        },
        NodeData::Flag(x) => if f == MPV_FORMAT_FLAG {
            Some(Node::Flag(*x != 0))
        } else {
            None
        },
        NodeData::Int64(x) => if f == MPV_FORMAT_INT64 {
            Some(Node::Int64(*x))
        } else {
            None
        },
        NodeData::Double(x) => if f == MPV_FORMAT_DOUBLE {
            Some(Node::Float64(*x))
        } else {
            None
        },
        NodeData::ByteArray(ob) => match ob {
            Some(ba) => if f == MPV_FORMAT_BYTE_ARRAY {
                Some(Node::ByteArray(ba.data.clone()))
            } else {
                None
            },
            None => None,
        },
        NodeData::List(ol) => match ol {
            Some(l) => {
                proof {
                    assert(node.u is List);
                    assert(decreases_to!(*node => l.values));
                }
                if f == MPV_FORMAT_NODE_ARRAY {
                    Some(Node::Array(decode_values_exec(&l.values)))
                } else if f == MPV_FORMAT_NODE_MAP {
                    Some(Node::NodeMap(decode_entries_exec(&l.values, &l.keys)))
                } else {
                    None
                }
            },
            None => None,
        },
    }
}

/// Read the values of a foreign list, skipping those that cannot be read.
fn decode_values_exec(values: &Vec<mpv_node>) -> (r: Vec<Node>)
    ensures
        nodes_view(r@) == decode_values(values@),
        forall|i: int| 0 <= i < r@.len() ==> well_formed(#[trigger] r@[i]),
    decreases values,
{
    let mut arr: Vec<Node> = Vec::new();
    let n = values.len();
    let mut i: usize = 0;
    while i < n
        invariant
            n == values.len(),
            i <= n,
            nodes_view(arr@) == decode_values(values@.take(i as int)),
            forall|j: int| 0 <= j < arr@.len() ==> well_formed(#[trigger] arr@[j]),
        decreases n - i,
    {
        proof {
            assert(decreases_to!(values => values[i as int]));
        }
        match decode_node(&values[i]) {
            Some(x) => {
                let ghost prev = arr@;
                arr.push(x);
                assert(arr@.drop_last() =~= prev);
                assert(forall|j: int| 0 <= j < prev.len() ==> arr@[j] == prev[j]);
            },
            None => {},
        }
        assert(values@.take(i + 1).drop_last() =~= values@.take(i as int));
        i += 1;
    }
    assert(values@.take(n as int) =~= values@);
    arr
}

/// Read the entries of a foreign map, skipping those whose value or key
/// cannot be read.
fn decode_entries_exec(values: &Vec<mpv_node>, keys: &Vec<Vec<u8>>) -> (r: Vec<(String, Node)>)
    ensures
        keys_unique(r@),
        forall|i: int| 0 <= i < r@.len() ==> well_formed(#[trigger] r@[i].1),
        entries_view(r@) == decode_entries(values@, keys@),
    decreases values,
{
    let mut entries: Vec<(String, Node)> = Vec::new();
    let n = values.len();
    let mut i: usize = 0;
    while i < n
        invariant
            n == values.len(),
            i <= n,
            keys_unique(entries@),
            forall|j: int| 0 <= j < entries@.len() ==> well_formed(#[trigger] entries@[j].1),
            entries_view(entries@) == decode_entries(values@.take(i as int), keys@),
        decreases n - i,
    {
        proof {
            assert(decreases_to!(values => values[i as int]));
        }
        match decode_node(&values[i]) {
            Some(x) => {
                if i < keys.len() {
                    match text_from_bytes(keys[i].clone()) {
                        Some(k) => put_entry(&mut entries, k, x),
                        None => {},
                    }
                }
            },
            None => {},
        }
        assert(values@.take(i + 1).drop_last() =~= values@.take(i as int));
        i += 1;
    }
    assert(values@.take(n as int) =~= values@);
    entries
}

/// A node that can be written: no boxed node occurs anywhere in it, and no
/// map in it holds a key twice.
pub open spec fn writable(n: Node) -> bool
    decreases n,
{
    match n {
        Node::Array(v) => forall|i: int| 0 <= i < v.len() ==> writable(#[trigger] v@[i]),
        Node::NodeMap(v) => keys_unique(v@) && forall|i: int|
            0 <= i < v.len() ==> writable(#[trigger] v@[i].1),
        Node::Node(_) => false,
        _ => true,
    }
}

/// The format tag that a node is written with.
pub open spec fn format_of(n: Node) -> u32 {
    match n {
        Node::String(_) => MPV_FORMAT_STRING,
        Node::OsdString(_) => MPV_FORMAT_OSD_STRING,
        Node::Flag(_) => MPV_FORMAT_FLAG,
        Node::Int64(_) => MPV_FORMAT_INT64,
        Node::Float64(_) => MPV_FORMAT_DOUBLE,
        Node::Array(_) => MPV_FORMAT_NODE_ARRAY,
        Node::ByteArray(_) => MPV_FORMAT_BYTE_ARRAY,
        Node::NodeMap(_) => MPV_FORMAT_NODE_MAP,
        Node::Node(_) => MPV_FORMAT_NODE,
    }
}

/// What survives writing a node: nothing for a string with an embedded NUL,
/// which a C string cannot hold; in a collection, the children that survive,
/// the others dropped, and in a map also the entries whose key has a NUL.
pub open spec fn written_view(n: Node) -> Option<NodeView>
    decreases n,
{
    match n {
        Node::String(s) => if s@.contains('\0') {
            None
        } else {
            Some(NodeView::String(s@))
        },
        Node::OsdString(s) => if s@.contains('\0') {
            None
        } else {
            Some(NodeView::OsdString(s@))
        },
        Node::Flag(b) => Some(NodeView::Flag(b)),
        Node::Int64(i) => Some(NodeView::Int64(i)),
        Node::Float64(d) => Some(NodeView::Float64(d)),
        Node::Array(v) => Some(NodeView::Array(written_values(v@))),
        Node::ByteArray(b) => Some(NodeView::ByteArray(b@)),
        Node::NodeMap(v) => Some(NodeView::NodeMap(written_entries(v@))),
        Node::Node(_) => None,
    }
}

pub open spec fn written_values(s: Seq<Node>) -> Seq<NodeView>
    decreases s,
{
    if s.len() == 0 {
        Seq::empty()
    } else {
        let prev = written_values(s.drop_last());
        match written_view(s.last()) {
            Some(w) => prev.push(w),
            None => prev,
        }
    }
}

pub open spec fn written_entries(s: Seq<(String, Node)>) -> Map<Seq<char>, NodeView>
    decreases s,
{
    if s.len() == 0 {
        Map::empty()
    } else {
        let prev = written_entries(s.drop_last());
        match written_view(s.last().1) {
            Some(w) => if s.last().0@.contains('\0') {
                prev
            } else {
                prev.insert(s.last().0@, w)
            },
            None => prev,
        }
    }
}

/// Whether a map's keys are readable C strings with pairwise different
/// texts, one per value.
pub open spec fn keys_well_written(keys: Seq<Vec<u8>>) -> bool {
    &&& forall|i: int| 0 <= i < keys.len() ==> utf8_text(#[trigger] keys[i]@) is Some
    &&& forall|i: int| 0 <= i < keys.len() ==> !(#[trigger] keys[i]@).contains(0u8)
    &&& forall|i: int, j: int|
        0 <= i < keys.len() && 0 <= j < keys.len() && i != j ==> utf8_text(#[trigger] keys[i]@)
            != utf8_text(#[trigger] keys[j]@)
}

/// A foreign node as the engine expects it: it reads back; a flag is 0 or
/// 1; a C string holds no zero byte before its end; every value of a list is
/// well written; a map has one readable key per value, no two alike, and an
/// array has no keys.
pub open spec fn well_written(n: mpv_node) -> bool
    decreases n,
{
    &&& decode_spec(n) is Some
    &&& n.format == MPV_FORMAT_FLAG ==> (n.u == NodeData::Flag(0i32) || n.u == NodeData::Flag(1i32))
    &&& match n.u {
        NodeData::Text(b) => !b@.contains(0u8),
        NodeData::List(Some(l)) => {
            &&& forall|i: int| 0 <= i < l.values.len() ==> well_written(#[trigger] l.values@[i])
            &&& if n.format == MPV_FORMAT_NODE_MAP {
                l.keys.len() == l.values.len() && keys_well_written(l.keys@)
            } else {
                l.keys.len() == 0
            }
        },
        _ => true,
    }
}

/// The payload a node is written with: the text of a string, 1 or 0 for a
/// flag, the number or bit pattern itself, the bytes of a buffer, and for a
/// collection one value per child (entry) that survives writing.
pub open spec fn written_payload(n: Node, r: mpv_node) -> bool {
    match n {
        Node::String(s) => r.u matches NodeData::Text(b) && utf8_text(b@) == Some(s@),
        Node::OsdString(s) => r.u matches NodeData::Text(b) && utf8_text(b@) == Some(s@),
        Node::Flag(b) => r.u == NodeData::Flag(
            if b {
                1i32
            } else {
                0i32
            },
        ),
        Node::Int64(i) => r.u == NodeData::Int64(i),
        Node::Float64(d) => r.u == NodeData::Double(d),
        Node::ByteArray(v) => r.u matches NodeData::ByteArray(Some(ba)) && ba.data@ == v@,
        Node::Array(v) => r.u matches NodeData::List(Some(l)) && l.values.len()
            == written_values(v@).len(),
        Node::NodeMap(v) => r.u matches NodeData::List(Some(l)) && l.values.len()
            == written_entries(v@).dom().len(),
        Node::Node(_) => false,
    }
}

/// A list all of whose values read back keeps every value.
proof fn lemma_values_kept(s: Seq<mpv_node>)
    requires
        forall|i: int| 0 <= i < s.len() ==> well_written(#[trigger] s[i]),
    ensures
        decode_values(s).len() == s.len(),
    decreases s.len(),
{
    if s.len() > 0 {
        let d = s.drop_last();
        assert(forall|i: int| 0 <= i < d.len() ==> d[i] == s[i]);
        assert(well_written(s[s.len() - 1]));
        lemma_values_kept(d);
    }
}

/// A map all of whose values read back, with distinct readable keys, keeps
/// one key per value.
proof fn lemma_entries_kept(s: Seq<mpv_node>, keys: Seq<Vec<u8>>)
    requires
        forall|i: int| 0 <= i < s.len() ==> well_written(#[trigger] s[i]),
        s.len() <= keys.len(),
        keys_well_written(keys),
    ensures
        decode_entries(s, keys).dom().len() == s.len(),
        forall|k: Seq<char>|
            #[trigger] decode_entries(s, keys).dom().contains(k) <==> exists|i: int|
                0 <= i < s.len() && utf8_text(keys[i]@) == Some(k),
    decreases s.len(),
{
    lemma_decoded_size(s, keys);
    if s.len() > 0 {
        let d = s.drop_last();
        let i = s.len() - 1;
        assert(forall|j: int| 0 <= j < d.len() ==> d[j] == s[j]);
        assert(well_written(s[i]));
        lemma_entries_kept(d, keys);
        lemma_decoded_size(d, keys);
        let k = utf8_text(keys[i]@)->Some_0;
        assert(utf8_text(keys[i]@) is Some);
        let prev = decode_entries(d, keys);
        assert(!prev.dom().contains(k)) by {
            if prev.dom().contains(k) {
                let j = choose|j: int| 0 <= j < d.len() && utf8_text(keys[j]@) == Some(k);
                assert(utf8_text(keys[j]@) != utf8_text(keys[i]@));
            }
        }
        assert(decode_entries(s, keys) == prev.insert(k, decode_spec(s[i])->Some_0));
        assert forall|k2: Seq<char>|
            #[trigger] decode_entries(s, keys).dom().contains(k2) <==> exists|j: int|
                0 <= j < s.len() && utf8_text(keys[j]@) == Some(k2) by {
            if decode_entries(s, keys).dom().contains(k2) && k2 != k {
                assert(prev.dom().contains(k2));
                let j = choose|j: int| 0 <= j < d.len() && utf8_text(keys[j]@) == Some(k2);
                assert(0 <= j < s.len() && utf8_text(keys[j]@) == Some(k2));
            }
            if exists|j: int| 0 <= j < s.len() && utf8_text(keys[j]@) == Some(k2) {
                let j = choose|j: int| 0 <= j < s.len() && utf8_text(keys[j]@) == Some(k2);
                if j < d.len() {
                    assert(prev.dom().contains(k2));
                }
            }
        }
    }
}

/// Keys past the end of the values are never read.
proof fn lemma_decode_entries_keys(s: Seq<mpv_node>, keys: Seq<Vec<u8>>, keys2: Seq<Vec<u8>>)
    requires
        s.len() <= keys.len(),
        s.len() <= keys2.len(),
        forall|i: int| 0 <= i < s.len() ==> keys[i] == keys2[i],
    ensures
        decode_entries(s, keys) == decode_entries(s, keys2),
    decreases s.len(),
{
    if s.len() > 0 {
        lemma_decode_entries_keys(s.drop_last(), keys, keys2);
    }
}

/// Whether a byte string holds a zero byte.
fn has_nul(b: &Vec<u8>) -> (r: bool)
    ensures
        r == b@.contains(0u8),
{
    let mut i: usize = 0;
    while i < b.len()
        invariant
            i <= b.len(),
            forall|j: int| 0 <= j < i ==> b@[j] != 0u8,
        decreases b.len() - i,
    {
        if b[i] == 0 {
            assert(b@[i as int] == 0u8);
            return true;
        }
        i += 1;
    }
    false
}

/// Write a string as a C string; `None` when it holds a NUL.
pub(crate) fn encode_text(s: &String) -> (r: Option<Vec<u8>>)
    ensures
        r is Some <==> !s@.contains('\0'),
        r matches Some(b) ==> utf8_text(b@) == Some(s@) && !b@.contains(0u8),
{
    let b = text_bytes(s);
    if has_nul(&b) {
        None
    } else {
        Some(b)
    }
}

/// Write a node in the foreign representation.
fn encode_node(n: &Node) -> (r: Option<mpv_node>)
    requires
        writable(*n),
    ensures
        r is Some <==> written_view(*n) is Some,
        r is Some ==> decode_spec(r->Some_0) == written_view(*n),
        r is Some ==> r->Some_0.format == format_of(*n),
        r is Some ==> well_written(r->Some_0),
        r is Some ==> written_payload(*n, r->Some_0),
    decreases n,
{
    match n {
        Node::String(s) => match encode_text(s) {
            Some(b) => Some(mpv_node { u: NodeData::Text(b), format: MPV_FORMAT_STRING }),
            None => None,
        },
        Node::OsdString(s) => match encode_text(s) {
            Some(b) => Some(mpv_node { u: NodeData::Text(b), format: MPV_FORMAT_OSD_STRING }),
            None => None,
        },
        Node::Flag(b) => Some(
            mpv_node {
                u: NodeData::Flag(
                    if *b {
                        1
                    } else {
                        0
                    },
                ),
                format: MPV_FORMAT_FLAG,
            },
        ),
        Node::Int64(i) => Some(mpv_node { u: NodeData::Int64(*i), format: MPV_FORMAT_INT64 }),
        Node::Float64(d) => Some(mpv_node { u: NodeData::Double(*d), format: MPV_FORMAT_DOUBLE }),
        Node::ByteArray(b) => Some(
            mpv_node {
                u: NodeData::ByteArray(Some(mpv_byte_array { data: b.clone() })),
                format: MPV_FORMAT_BYTE_ARRAY,
            },
        ),
        Node::Array(v) => {
            let values = encode_values(v);
            proof {
                lemma_values_kept(values@);
            }
            Some(
                mpv_node {
                    u: NodeData::List(Some(mpv_node_list { values, keys: Vec::new() })),
                    format: MPV_FORMAT_NODE_ARRAY,
                },
            )
        },
        Node::NodeMap(v) => {
            let (values, keys) = encode_entries(v);
            proof {
                lemma_entries_kept(values@, keys@);
            }
            Some(
                mpv_node {
                    u: NodeData::List(Some(mpv_node_list { values, keys })),
                    format: MPV_FORMAT_NODE_MAP,
                },
            )
        },
        Node::Node(_) => {
            proof {
                assert(false);
            }
            None
        },
    }
}

/// Write the children of an array, dropping those that cannot be written.
fn encode_values(v: &Vec<Node>) -> (r: Vec<mpv_node>)
    requires
        forall|i: int| 0 <= i < v.len() ==> writable(#[trigger] v@[i]),
    ensures
        decode_values(r@) == written_values(v@),
        r@.len() <= v@.len(),
        forall|i: int| 0 <= i < r@.len() ==> well_written(#[trigger] r@[i]),
    decreases v,
{
    let mut out: Vec<mpv_node> = Vec::new();
    let n = v.len();
    let mut i: usize = 0;
    while i < n
        invariant
            n == v.len(),
            i <= n,
            out@.len() <= i,
            forall|j: int| 0 <= j < out@.len() ==> well_written(#[trigger] out@[j]),
            forall|j: int| 0 <= j < v.len() ==> writable(#[trigger] v@[j]),
            decode_values(out@) == written_values(v@.take(i as int)),
        decreases n - i,
    {
        proof {
            assert(decreases_to!(v => v[i as int]));
        }
        match encode_node(&v[i]) {
            Some(x) => {
                let ghost prev = out@;
                out.push(x);
                assert(out@.drop_last() =~= prev);
                assert(forall|j: int| 0 <= j < prev.len() ==> out@[j] == prev[j]);
            },
            None => {},
        }
        assert(v@.take(i + 1).drop_last() =~= v@.take(i as int));
        i += 1;
    }
    assert(v@.take(n as int) =~= v@);
    out
}

/// Write the entries of a map as parallel values and keys, dropping those
/// whose value or key cannot be written.
fn encode_entries(v: &Vec<(String, Node)>) -> (r: (Vec<mpv_node>, Vec<Vec<u8>>))
    requires
        keys_unique(v@),
        forall|i: int| 0 <= i < v.len() ==> writable(#[trigger] v@[i].1),
    ensures
        r.0@.len() == r.1@.len(),
        r.0@.len() <= v@.len(),
        forall|i: int| 0 <= i < r.0@.len() ==> well_written(#[trigger] r.0@[i]),
        keys_well_written(r.1@),
        decode_entries(r.0@, r.1@) == written_entries(v@),
    decreases v,
{
    let mut values: Vec<mpv_node> = Vec::new();
    let mut keys: Vec<Vec<u8>> = Vec::new();
    let n = v.len();
    let mut i: usize = 0;
    while i < n
        invariant
            n == v.len(),
            i <= n,
            values@.len() == keys@.len(),
            values@.len() <= i,
            forall|j: int| 0 <= j < values@.len() ==> well_written(#[trigger] values@[j]),
            keys_well_written(keys@),
            forall|p: int|
                0 <= p < keys@.len() ==> exists|j: int|
                    0 <= j < i && utf8_text(#[trigger] keys@[p]@) == Some(v@[j].0@),
            keys_unique(v@),
            forall|j: int| 0 <= j < v.len() ==> writable(#[trigger] v@[j].1),
            decode_entries(values@, keys@) == written_entries(v@.take(i as int)),
        decreases n - i,
    {
        proof {
            assert(decreases_to!(v => v[i as int]));
        }
        match encode_node(&v[i].1) {
            Some(x) => {
                match encode_text(&v[i].0) {
                    Some(kb) => {
                        let ghost pv = values@;
                        let ghost pk = keys@;
                        values.push(x);
                        keys.push(kb);
                        proof {
                            assert(values@.drop_last() =~= pv);
                            assert(forall|j: int| 0 <= j < pv.len() ==> values@[j] == pv[j]);
                            assert(forall|j: int| 0 <= j < pk.len() ==> keys@[j] == pk[j]);
                            lemma_decode_entries_keys(pv, pk, keys@);
                            assert forall|p: int| 0 <= p < pk.len() implies utf8_text(
                                #[trigger] keys@[p]@,
                            ) != utf8_text(keys@[pk.len() as int]@) by {
                                let j = choose|j: int|
                                    0 <= j < i && utf8_text(pk[p]@) == Some(v@[j].0@);
                                assert(v@[j].0@ != v@[i as int].0@);
                            }
                            assert forall|p: int|
                                0 <= p < keys@.len() implies exists|j: int|
                                    0 <= j < i + 1 && utf8_text(#[trigger] keys@[p]@) == Some(
                                        v@[j].0@,
                                    ) by {
                                if p < pk.len() {
                                    let j = choose|j: int|
                                        0 <= j < i && utf8_text(pk[p]@) == Some(v@[j].0@);
                                    assert(utf8_text(keys@[p]@) == Some(v@[j].0@));
                                } else {
                                    assert(utf8_text(keys@[p]@) == Some(v@[i as int].0@));
                                }
                            }
                        }
                    },
                    None => {},
                }
            },
            None => {},
        }
        proof {
            assert forall|p: int|
                0 <= p < keys@.len() implies exists|j: int|
                    0 <= j < i + 1 && utf8_text(#[trigger] keys@[p]@) == Some(v@[j].0@) by {
                let j = choose|j: int|
                    0 <= j < i + 1 && utf8_text(keys@[p]@) == Some(v@[j].0@);
            }
        }
        assert(v@.take(i + 1).drop_last() =~= v@.take(i as int));
        i += 1;
    }
    assert(v@.take(n as int) =~= v@);
    (values, keys)
}

/// A foreign collection never reads back larger than the entries it
/// announces: an array has at most one element per value, and a map at most
/// one key per value.
pub proof fn lemma_decoded_size(s: Seq<mpv_node>, keys: Seq<Vec<u8>>)
    ensures
        decode_values(s).len() <= s.len(),
        decode_entries(s, keys).dom().finite(),
        decode_entries(s, keys).dom().len() <= s.len(),
    decreases s.len(),
{
    if s.len() > 0 {
        lemma_decoded_size(s.drop_last(), keys);
    }
}

/// A node that writing keeps whole: no string or key holds a NUL and no
/// boxed node occurs.
pub open spec fn writes_exactly(n: Node) -> bool
    decreases n,
{
    match n {
        Node::String(s) => !s@.contains('\0'),
        Node::OsdString(s) => !s@.contains('\0'),
        Node::Array(v) => forall|i: int| 0 <= i < v.len() ==> writes_exactly(#[trigger] v@[i]),
        Node::NodeMap(v) => forall|i: int|
            0 <= i < v.len() ==> !(#[trigger] v@[i]).0@.contains('\0') && writes_exactly(v@[i].1),
        Node::Node(_) => false,
        _ => true,
    }
}

proof fn lemma_written_values_exact(s: Seq<Node>)
    requires
        forall|i: int| 0 <= i < s.len() ==> writes_exactly(#[trigger] s[i]),
    ensures
        written_values(s) == nodes_view(s),
    decreases s,
{
    if s.len() > 0 {
        assert(decreases_to!(s => s[s.len() - 1]));
        lemma_written_exact(s.last());
        let d = s.drop_last();
        assert(forall|i: int| 0 <= i < d.len() ==> d[i] == s[i]);
        lemma_written_values_exact(d);
    }
}

proof fn lemma_written_entries_exact(s: Seq<(String, Node)>)
    requires
        forall|i: int|
            0 <= i < s.len() ==> !(#[trigger] s[i]).0@.contains('\0') && writes_exactly(s[i].1),
    ensures
        written_entries(s) == entries_view(s),
    decreases s,
{
    if s.len() > 0 {
        assert(decreases_to!(s => s[s.len() - 1]));
        lemma_written_exact(s.last().1);
        let d = s.drop_last();
        assert(forall|i: int| 0 <= i < d.len() ==> d[i] == s[i]);
        lemma_written_entries_exact(d);
    }
}

proof fn lemma_written_exact(n: Node)
    requires
        writes_exactly(n),
    ensures
        written_view(n) == Some(node_view(n)),
    decreases n,
{
    match n {
        Node::Array(v) => {
            assert(decreases_to!(n => v@));
            lemma_written_values_exact(v@);
        },
        Node::NodeMap(v) => {
            assert(decreases_to!(n => v@));
            lemma_written_entries_exact(v@);
        },
        _ => {},
    }
}

/// Writing a node and reading it back gives what survives writing (its
/// unwritable children dropped), and for a node without embedded NULs that is
/// the node itself.
pub proof fn lemma_round_trip(n: Node)
    requires
        writable(n),
    ensures
        writes_exactly(n) ==> written_view(n) == Some(n@),
{
    if writes_exactly(n) {
        lemma_written_exact(n);
    }
}

impl Node {
    /// Read a foreign node into an owned one: `None` for an unknown format
    /// tag, a null header or a string that is not UTF-8; the children of a
    /// collection that cannot be read are left out.
    pub fn from_mpv_node(node: mpv_node) -> (r: Option<Node>)
        ensures
            opt_view(r) == decode_spec(node),
            r matches Some(x) ==> well_formed(x),
    {
        decode_node(&node)
    }

    /// Write this node in the foreign representation: `None` when it is a
    /// string with an embedded NUL; the children of a collection that cannot
    /// be written, and map entries whose key holds a NUL, are dropped.
    pub fn to_mpv_node(self) -> (r: Option<mpv_node>)
        requires
            writable(self),
        ensures
            r is Some <==> written_view(self) is Some,
            r is Some ==> decode_spec(r->Some_0) == written_view(self),
            r is Some ==> r->Some_0.format == format_of(self),
            r is Some ==> well_written(r->Some_0),
            r is Some ==> written_payload(self, r->Some_0),
    {
        encode_node(&self)
    }

    /// Whether this node can be handed to `to_mpv_node`: it holds no boxed
    /// node and no map with a repeated key.
    pub fn is_writable(&self) -> (r: bool)
        ensures
            r == writable(*self),
        decreases self,
    {
        match self {
            Node::Array(v) => values_writable(v),
            Node::NodeMap(v) => keys_distinct(v) && entries_writable(v),
            Node::Node(_) => false,
            _ => true,
        }
    }
}

fn values_writable(v: &Vec<Node>) -> (r: bool)
    ensures
        r == forall|i: int| 0 <= i < v.len() ==> writable(#[trigger] v@[i]),
    decreases v,
{
    let mut i: usize = 0;
    while i < v.len()
        invariant
            i <= v.len(),
            forall|j: int| 0 <= j < i ==> writable(#[trigger] v@[j]),
        decreases v.len() - i,
    {
        proof {
            assert(decreases_to!(v => v[i as int]));
        }
        if !v[i].is_writable() {
            assert(!writable(v@[i as int]));
            return false;
        }
        i += 1;
    }
    true
}

/// Whether no key occurs twice among the entries.
fn keys_distinct(v: &Vec<(String, Node)>) -> (r: bool)
    ensures
        r == keys_unique(v@),
{
    let n = v.len();
    let mut i: usize = 0;
    while i < n
        invariant
            n == v.len(),
            i <= n,
            forall|a: int, b: int|
                0 <= a < i && 0 <= b < n && a != b ==> #[trigger] v@[a].0@ != #[trigger] v@[b].0@,
        decreases n - i,
    {
        let mut j: usize = 0;
        while j < n
            invariant
                n == v.len(),
                i < n,
                j <= n,
                forall|a: int, b: int|
                    0 <= a < i && 0 <= b < n && a != b ==> #[trigger] v@[a].0@ != #[trigger] v@[b].0@,
                forall|b: int| 0 <= b < j && b != i ==> v@[i as int].0@ != #[trigger] v@[b].0@,
            decreases n - j,
        {
            if j != i && v[i].0 == v[j].0 {
                assert(!keys_unique(v@));
                return false;
            }
            j += 1;
        }
        i += 1;
    }
    true
}

fn entries_writable(v: &Vec<(String, Node)>) -> (r: bool)
    ensures
        r == forall|i: int| 0 <= i < v.len() ==> writable(#[trigger] v@[i].1),
    decreases v,
{
    let mut i: usize = 0;
    while i < v.len()
        invariant
            i <= v.len(),
            forall|j: int| 0 <= j < i ==> writable(#[trigger] v@[j].1),
        decreases v.len() - i,
    {
        proof {
            assert(decreases_to!(v => v[i as int]));
        }
        if !v[i].1.is_writable() {
            assert(!writable(v@[i as int].1));
            return false;
        }
        i += 1;
    }
    true
}

impl Clone for Node {
    /// A deep copy, equal in value.
    fn clone(&self) -> (r: Node)
        ensures
            node_view(r) == node_view(*self),
            well_formed(*self) ==> well_formed(r),
        decreases self,
    {
        match self {
            Node::String(s) => Node::String(s.clone()),
            Node::OsdString(s) => Node::OsdString(s.clone()),
            Node::Flag(b) => Node::Flag(*b),
            Node::Int64(i) => Node::Int64(*i),
            Node::Float64(d) => Node::Float64(*d),
            Node::Array(v) => Node::Array(clone_values(v)),
            Node::ByteArray(b) => Node::ByteArray(b.clone()),
            Node::NodeMap(v) => Node::NodeMap(clone_entries(v)),
            Node::Node(b) => Node::Node(Box::new((&**b).clone())),
        }
    }
}

fn clone_values(v: &Vec<Node>) -> (r: Vec<Node>)
    ensures
        nodes_view(r@) == nodes_view(v@),
        r@.len() == v@.len(),
        forall|i: int| 0 <= i < v.len() && well_formed(v@[i]) ==> well_formed(#[trigger] r@[i]),
    decreases v,
{
    let mut out: Vec<Node> = Vec::new();
    let mut i: usize = 0;
    while i < v.len()
        invariant
            i <= v.len(),
            out@.len() == i,
            nodes_view(out@) == nodes_view(v@.take(i as int)),
            forall|j: int| 0 <= j < i && well_formed(v@[j]) ==> well_formed(#[trigger] out@[j]),
        decreases v.len() - i,
    {
        proof {
            assert(decreases_to!(v => v[i as int]));
        }
        let x = v[i].clone();
        let ghost prev = out@;
        out.push(x);
        assert(out@.drop_last() =~= prev);
        assert(v@.take(i + 1).drop_last() =~= v@.take(i as int));
        i += 1;
    }
    assert(v@.take(v.len() as int) =~= v@);
    out
}

fn clone_entries(v: &Vec<(String, Node)>) -> (r: Vec<(String, Node)>)
    ensures
        entries_view(r@) == entries_view(v@),
        r@.len() == v@.len(),
        forall|i: int| 0 <= i < v.len() ==> (#[trigger] r@[i]).0@ == v@[i].0@,
        forall|i: int| 0 <= i < v.len() && well_formed(v@[i].1) ==> well_formed(#[trigger] r@[i].1),
    decreases v,
{
    let mut out: Vec<(String, Node)> = Vec::new();
    let mut i: usize = 0;
    while i < v.len()
        invariant
            i <= v.len(),
            out@.len() == i,
            entries_view(out@) == entries_view(v@.take(i as int)),
            forall|j: int| 0 <= j < i ==> (#[trigger] out@[j]).0@ == v@[j].0@,
            forall|j: int| 0 <= j < i && well_formed(v@[j].1) ==> well_formed(#[trigger] out@[j].1),
        decreases v.len() - i,
    {
        proof {
            assert(decreases_to!(v => v[i as int]));
        }
        let x = (v[i].0.clone(), v[i].1.clone());
        let ghost prev = out@;
        out.push(x);
        assert(out@.drop_last() =~= prev);
        assert(v@.take(i + 1).drop_last() =~= v@.take(i as int));
        i += 1;
    }
    assert(v@.take(v.len() as int) =~= v@);
    out
}

/// The scalar formats in which a property can be read or written directly.
#[derive(Debug, Clone, Copy, PartialEq, Eq, Structural)]
pub enum MpvFormat {
    String,
    OsdString,
    Flag,
    Int64,
    Float64,
}

/// The format tag of each scalar format.
pub open spec fn format_tag(f: MpvFormat) -> u32 {
    match f {
        MpvFormat::String => MPV_FORMAT_STRING,
        MpvFormat::OsdString => MPV_FORMAT_OSD_STRING,
        MpvFormat::Flag => MPV_FORMAT_FLAG,
        MpvFormat::Int64 => MPV_FORMAT_INT64,
        MpvFormat::Float64 => MPV_FORMAT_DOUBLE,
    }
}

impl MpvFormat {
    /// The scalar format that a tag names, if it names one.
    pub fn from_mpv_format(format: u32) -> (r: Option<MpvFormat>)
        ensures
            r is Some <==> MPV_FORMAT_STRING <= format <= MPV_FORMAT_DOUBLE,
            r is Some ==> format_tag(r->Some_0) == format,
    {
        match format {
            MPV_FORMAT_STRING => Some(MpvFormat::String),
            MPV_FORMAT_OSD_STRING => Some(MpvFormat::OsdString),
            MPV_FORMAT_FLAG => Some(MpvFormat::Flag),
            MPV_FORMAT_INT64 => Some(MpvFormat::Int64),
            MPV_FORMAT_DOUBLE => Some(MpvFormat::Float64),
            _ => None,
        }
    }

    /// The tag of this format.
    pub fn to_mpv_format(self) -> (r: u32)
        ensures
            r == format_tag(self),
    {
        match self {
            MpvFormat::String => MPV_FORMAT_STRING,
            MpvFormat::OsdString => MPV_FORMAT_OSD_STRING,
            MpvFormat::Flag => MPV_FORMAT_FLAG,
            MpvFormat::Int64 => MPV_FORMAT_INT64,
            MpvFormat::Float64 => MPV_FORMAT_DOUBLE,
        }
    }
}

/// A property as an event reports it: its name and, unless it is
/// unavailable, its value.
#[derive(Debug, Clone)]
pub struct Property {
    pub name: String,
    pub data: Option<Node>,
}

/// What reading a foreign property record gives: nothing when its name is
/// not UTF-8; else the name, and the value read from its data pointer, when
/// that is not null, as a node of the record's format.
pub open spec fn property_decoded(p: mpv_event_property, r: Option<Property>) -> bool {
    match utf8_text(p.name@) {
        None => r is None,
        Some(name) => r matches Some(q) && q.name@ == name && match p.data {
            None => q.data is None,
            Some(u) => opt_view(q.data) == decode_spec(mpv_node { u, format: p.format }),
        },
    }
}

impl Property {
    /// Read a foreign property record.
    pub fn from_mpv_property(property: mpv_event_property) -> (r: Option<Property>)
        ensures
            property_decoded(property, r),
    {
        let mpv_event_property { name, format, data } = property;
        let name = match text_from_bytes(name) {
            Some(n) => n,
            None => {
                return None;
            },
        };
        match data {
            None => Some(Property { name, data: None }),
            Some(u) => Some(Property { name, data: Node::from_mpv_node(mpv_node { u, format }) }),
        }
    }
}

} // verus!
