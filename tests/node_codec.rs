use libmpv_rs::client::{command_args, command_result, node_argument};
use libmpv_rs::error::MpvError;
use libmpv_rs::node::{MpvFormat, Node, Property};
use libmpv_rs::raw::{
    mpv_byte_array, mpv_event_property, mpv_node, mpv_node_list, NodeData, MPV_FORMAT_BYTE_ARRAY,
    MPV_FORMAT_DOUBLE, MPV_FORMAT_FLAG, MPV_FORMAT_INT64, MPV_FORMAT_NODE, MPV_FORMAT_NODE_ARRAY,
    MPV_FORMAT_NODE_MAP, MPV_FORMAT_NONE, MPV_FORMAT_OSD_STRING, MPV_FORMAT_STRING,
};

fn text(s: &str) -> mpv_node {
    mpv_node { u: NodeData::Text(s.as_bytes().to_vec()), format: MPV_FORMAT_STRING }
}

fn int_node(i: i64) -> mpv_node {
    mpv_node { u: NodeData::Int64(i), format: MPV_FORMAT_INT64 }
}

fn same(a: &Node, b: &Node) -> bool {
    match (a, b) {
        (Node::String(x), Node::String(y)) => x == y,
        (Node::OsdString(x), Node::OsdString(y)) => x == y,
        (Node::Flag(x), Node::Flag(y)) => x == y,
        (Node::Int64(x), Node::Int64(y)) => x == y,
        (Node::Float64(x), Node::Float64(y)) => x == y,
        (Node::ByteArray(x), Node::ByteArray(y)) => x == y,
        (Node::Array(x), Node::Array(y)) => {
            x.len() == y.len() && x.iter().zip(y.iter()).all(|(p, q)| same(p, q))
        }
        (Node::NodeMap(x), Node::NodeMap(y)) => {
            x.len() == y.len()
                && x.iter().all(|(k, v)| y.iter().any(|(k2, v2)| k == k2 && same(v, v2)))
        }
        _ => false,
    }
}

fn round_trip(n: Node) -> Option<Node> {
    Node::from_mpv_node(n.to_mpv_node()?)
}

#[test]
fn decode_string_hello() {
    let r = Node::from_mpv_node(text("hello"));
    assert!(matches!(r, Some(Node::String(ref s)) if s == "hello"));
}

#[test]
fn decode_osd_string() {
    let n = mpv_node { u: NodeData::Text(b"1:02".to_vec()), format: MPV_FORMAT_OSD_STRING };
    assert!(matches!(Node::from_mpv_node(n), Some(Node::OsdString(ref s)) if s == "1:02"));
}

#[test]
fn decode_invalid_utf8_is_none() {
    let n = mpv_node { u: NodeData::Text(vec![0x66, 0xff, 0xfe]), format: MPV_FORMAT_STRING };
    assert!(Node::from_mpv_node(n).is_none());
}

#[test]
fn decode_null_byte_array_is_none() {
    let n = mpv_node { u: NodeData::ByteArray(None), format: MPV_FORMAT_BYTE_ARRAY };
    assert!(Node::from_mpv_node(n).is_none());
}

#[test]
fn decode_byte_array() {
    let n = mpv_node {
        u: NodeData::ByteArray(Some(mpv_byte_array { data: vec![0, 1, 255] })),
        format: MPV_FORMAT_BYTE_ARRAY,
    };
    assert!(matches!(Node::from_mpv_node(n), Some(Node::ByteArray(ref b)) if b == &vec![0, 1, 255]));
}

#[test]
fn decode_flag_is_nonzero() {
    let t = Node::from_mpv_node(mpv_node { u: NodeData::Flag(7), format: MPV_FORMAT_FLAG });
    let f = Node::from_mpv_node(mpv_node { u: NodeData::Flag(0), format: MPV_FORMAT_FLAG });
    assert!(matches!(t, Some(Node::Flag(true))));
    assert!(matches!(f, Some(Node::Flag(false))));
}

#[test]
fn decode_scalars() {
    assert!(matches!(Node::from_mpv_node(int_node(-9)), Some(Node::Int64(-9))));
    let bits = 2.5f64.to_bits();
    let d = Node::from_mpv_node(mpv_node { u: NodeData::Double(bits), format: MPV_FORMAT_DOUBLE });
    assert!(matches!(d, Some(Node::Float64(b)) if f64::from_bits(b) == 2.5));
}

#[test]
fn decode_unknown_tags_are_none() {
    for tag in [MPV_FORMAT_NONE, MPV_FORMAT_NODE, 10, 99, u32::MAX] {
        assert!(Node::from_mpv_node(mpv_node { u: NodeData::Int64(1), format: tag }).is_none());
    }
}

#[test]
fn decode_tag_payload_mismatch_is_none() {
    let n = mpv_node { u: NodeData::Int64(1), format: MPV_FORMAT_STRING };
    assert!(Node::from_mpv_node(n).is_none());
}

#[test]
fn decode_null_list_is_none() {
    let a = mpv_node { u: NodeData::List(None), format: MPV_FORMAT_NODE_ARRAY };
    let m = mpv_node { u: NodeData::List(None), format: MPV_FORMAT_NODE_MAP };
    assert!(Node::from_mpv_node(a).is_none());
    assert!(Node::from_mpv_node(m).is_none());
}

#[test]
fn decode_array_skips_bad_children() {
    let bad = mpv_node { u: NodeData::Text(vec![0xc3]), format: MPV_FORMAT_STRING };
    let unknown = mpv_node { u: NodeData::Int64(3), format: 42 };
    let list = mpv_node_list { values: vec![int_node(1), bad, text("x"), unknown], keys: vec![] };
    let n = mpv_node { u: NodeData::List(Some(list)), format: MPV_FORMAT_NODE_ARRAY };
    let r = Node::from_mpv_node(n).unwrap();
    let want = Node::Array(vec![Node::Int64(1), Node::String("x".into())]);
    assert!(same(&r, &want));
}

#[test]
fn decode_map_skips_bad_entries_and_missing_keys() {
    let bad = mpv_node { u: NodeData::Flag(1), format: 42 };
    let list = mpv_node_list {
        values: vec![int_node(1), bad, int_node(3), int_node(4), int_node(5)],
        keys: vec![b"a".to_vec(), b"b".to_vec(), vec![0xff], b"d".to_vec()],
    };
    let n = mpv_node { u: NodeData::List(Some(list)), format: MPV_FORMAT_NODE_MAP };
    let r = Node::from_mpv_node(n).unwrap();
    let want = Node::NodeMap(vec![("a".into(), Node::Int64(1)), ("d".into(), Node::Int64(4))]);
    assert!(same(&r, &want));
}

#[test]
fn decode_map_later_duplicate_key_wins() {
    let list = mpv_node_list {
        values: vec![int_node(1), int_node(2)],
        keys: vec![b"k".to_vec(), b"k".to_vec()],
    };
    let n = mpv_node { u: NodeData::List(Some(list)), format: MPV_FORMAT_NODE_MAP };
    let r = Node::from_mpv_node(n).unwrap();
    assert!(same(&r, &Node::NodeMap(vec![("k".into(), Node::Int64(2))])));
}

#[test]
fn decode_nested_collections() {
    let inner = mpv_node_list { values: vec![int_node(1), int_node(2)], keys: vec![] };
    let arr = mpv_node { u: NodeData::List(Some(inner)), format: MPV_FORMAT_NODE_ARRAY };
    let outer = mpv_node_list { values: vec![arr], keys: vec![b"xs".to_vec()] };
    let n = mpv_node { u: NodeData::List(Some(outer)), format: MPV_FORMAT_NODE_MAP };
    let want = Node::NodeMap(vec![(
        "xs".into(),
        Node::Array(vec![Node::Int64(1), Node::Int64(2)]),
    )]);
    assert!(same(&Node::from_mpv_node(n).unwrap(), &want));
}

#[test]
fn encode_map_two_entries() {
    let n = Node::NodeMap(vec![("a".into(), Node::Int64(1)), ("b".into(), Node::Flag(true))]);
    let raw = n.to_mpv_node().unwrap();
    assert_eq!(raw.format, MPV_FORMAT_NODE_MAP);
    let NodeData::List(Some(list)) = raw.u else { panic!("not a list") };
    assert_eq!(list.values.len(), 2);
    assert_eq!(list.keys.len(), 2);
    assert!(list.keys.contains(&b"a".to_vec()));
    assert!(list.keys.contains(&b"b".to_vec()));
    let ia = list.keys.iter().position(|k| k == b"a").unwrap();
    let ib = list.keys.iter().position(|k| k == b"b").unwrap();
    assert!(matches!(list.values[ia], mpv_node { u: NodeData::Int64(1), format: MPV_FORMAT_INT64 }));
    assert!(matches!(list.values[ib], mpv_node { u: NodeData::Flag(1), format: MPV_FORMAT_FLAG }));
}

#[test]
fn encode_string_bytes() {
    let raw = Node::String("héllo".into()).to_mpv_node().unwrap();
    assert_eq!(raw.format, MPV_FORMAT_STRING);
    assert!(matches!(raw.u, NodeData::Text(ref b) if b == "héllo".as_bytes()));
}

#[test]
fn encode_flag_false_and_double() {
    let f = Node::Flag(false).to_mpv_node().unwrap();
    assert!(matches!(f, mpv_node { u: NodeData::Flag(0), format: MPV_FORMAT_FLAG }));
    let bits = (-0.75f64).to_bits();
    let d = Node::Float64(bits).to_mpv_node().unwrap();
    assert!(matches!(d, mpv_node { u: NodeData::Double(b), format: MPV_FORMAT_DOUBLE } if b == bits));
}

#[test]
fn encode_string_with_nul_is_none() {
    assert!(Node::String("a\0b".into()).to_mpv_node().is_none());
    assert!(Node::OsdString("\0".into()).to_mpv_node().is_none());
}

#[test]
fn encode_drops_unwritable_children() {
    let n = Node::Array(vec![Node::String("ok".into()), Node::String("b\0ad".into()), Node::Int64(5)]);
    let raw = n.to_mpv_node().unwrap();
    let NodeData::List(Some(ref list)) = raw.u else { panic!("not a list") };
    assert_eq!(list.values.len(), 2);
    let back = Node::from_mpv_node(raw).unwrap();
    assert!(same(&back, &Node::Array(vec![Node::String("ok".into()), Node::Int64(5)])));
}

#[test]
fn encode_drops_map_entry_with_nul_key() {
    let n = Node::NodeMap(vec![("k\0".into(), Node::Int64(1)), ("j".into(), Node::Int64(2))]);
    let back = round_trip(n).unwrap();
    assert!(same(&back, &Node::NodeMap(vec![("j".into(), Node::Int64(2))])));
}

#[test]
fn boxed_node_is_not_writable() {
    assert!(!Node::Node(Box::new(Node::Int64(1))).is_writable());
    assert!(!Node::Array(vec![Node::Node(Box::new(Node::Flag(true)))]).is_writable());
    assert!(Node::Array(vec![Node::Int64(1)]).is_writable());
}

#[test]
fn round_trip_is_exact_without_nuls() {
    let n = Node::NodeMap(vec![
        ("name".into(), Node::String("clip.mkv".into())),
        ("osd".into(), Node::OsdString("00:01".into())),
        ("paused".into(), Node::Flag(false)),
        ("pos".into(), Node::Int64(-12)),
        ("speed".into(), Node::Float64(1.25f64.to_bits())),
        ("blob".into(), Node::ByteArray(vec![0, 9, 0])),
        (
            "list".into(),
            Node::Array(vec![Node::Int64(1), Node::NodeMap(vec![]), Node::Array(vec![])]),
        ),
    ]);
    let copy = Node::NodeMap(vec![
        ("name".into(), Node::String("clip.mkv".into())),
        ("osd".into(), Node::OsdString("00:01".into())),
        ("paused".into(), Node::Flag(false)),
        ("pos".into(), Node::Int64(-12)),
        ("speed".into(), Node::Float64(1.25f64.to_bits())),
        ("blob".into(), Node::ByteArray(vec![0, 9, 0])),
        (
            "list".into(),
            Node::Array(vec![Node::Int64(1), Node::NodeMap(vec![]), Node::Array(vec![])]),
        ),
    ]);
    let back = round_trip(n).unwrap();
    assert!(same(&back, &copy));
}

#[test]
fn round_trip_empty_string_and_bytes() {
    assert!(same(&round_trip(Node::String(String::new())).unwrap(), &Node::String(String::new())));
    assert!(same(&round_trip(Node::ByteArray(vec![])).unwrap(), &Node::ByteArray(vec![])));
}

#[test]
fn format_tags_round_trip() {
    for f in [MpvFormat::String, MpvFormat::OsdString, MpvFormat::Flag, MpvFormat::Int64, MpvFormat::Float64] {
        assert_eq!(MpvFormat::from_mpv_format(f.to_mpv_format()), Some(f));
    }
    assert_eq!(MpvFormat::Float64.to_mpv_format(), MPV_FORMAT_DOUBLE);
    assert_eq!(MpvFormat::from_mpv_format(MPV_FORMAT_NONE), None);
    assert_eq!(MpvFormat::from_mpv_format(MPV_FORMAT_NODE_MAP), None);
}

#[test]
fn property_with_value() {
    let p = mpv_event_property {
        name: b"volume".to_vec(),
        format: MPV_FORMAT_INT64,
        data: Some(NodeData::Int64(80)),
    };
    let r: Property = Property::from_mpv_property(p).unwrap();
    assert_eq!(r.name, "volume");
    assert!(matches!(r.data, Some(Node::Int64(80))));
}

#[test]
fn property_unavailable_and_bad_name() {
    let p = mpv_event_property { name: b"pause".to_vec(), format: MPV_FORMAT_NONE, data: None };
    let r = Property::from_mpv_property(p).unwrap();
    assert_eq!(r.name, "pause");
    assert!(r.data.is_none());
    let q = mpv_event_property { name: vec![0xff], format: MPV_FORMAT_FLAG, data: Some(NodeData::Flag(1)) };
    assert!(Property::from_mpv_property(q).is_none());
}

#[test]
fn command_result_folds_status() {
    assert!(matches!(command_result(-12, Some(int_node(1))), Err(MpvError::CommandError)));
    assert!(matches!(command_result(0, None), Ok(None)));
    assert!(matches!(command_result(0, Some(int_node(4))), Ok(Some(Node::Int64(4)))));
    assert!(matches!(command_result(1, Some(mpv_node { u: NodeData::Int64(0), format: MPV_FORMAT_NONE })), Ok(None)));
}

#[test]
fn node_argument_failure() {
    let r = node_argument(Node::String("x\0".into()), MpvError::OptionError);
    assert!(matches!(r, Err(MpvError::OptionError)));
    let ok = node_argument(Node::String("yes".into()), MpvError::OptionError).unwrap();
    assert_eq!(ok.format, MPV_FORMAT_STRING);
}

#[test]
fn command_args_as_c_strings() {
    let args = vec!["loadfile".to_string(), "a b.mkv".to_string()];
    let out = command_args(&args).unwrap();
    assert_eq!(out, vec![b"loadfile".to_vec(), b"a b.mkv".to_vec()]);
    assert!(command_args(&vec!["ok".to_string(), "b\0".to_string()]).is_none());
    assert_eq!(command_args(&vec![]).unwrap().len(), 0);
}

#[test]
fn clone_is_deep_copy() {
    let n = Node::NodeMap(vec![
        ("a".into(), Node::Array(vec![Node::Int64(1), Node::String("s".into())])),
        ("b".into(), Node::Node(Box::new(Node::Flag(true)))),
    ]);
    let c = n.clone();
    match (&n, &c) {
        (Node::NodeMap(x), Node::NodeMap(y)) => {
            assert_eq!(x.len(), y.len());
            assert_eq!(x[0].0, y[0].0);
            assert!(same(&x[0].1, &y[0].1));
            assert!(matches!(&y[1].1, Node::Node(b) if matches!(**b, Node::Flag(true))));
        }
        _ => panic!("clone changed the variant"),
    }
}

#[test]
fn repeated_map_key_is_not_writable() {
    let n = Node::NodeMap(vec![("k".into(), Node::Int64(1)), ("k".into(), Node::Int64(2))]);
    assert!(!n.is_writable());
    let nested = Node::Array(vec![Node::NodeMap(vec![("x".into(), Node::Flag(true)), ("x".into(), Node::Flag(false))])]);
    assert!(!nested.is_writable());
    let ok = Node::NodeMap(vec![("k".into(), Node::Int64(1)), ("j".into(), Node::Int64(2))]);
    assert!(ok.is_writable());
}

#[test]
fn nested_flags_written_as_one_or_zero() {
    let n = Node::Array(vec![Node::Flag(true), Node::NodeMap(vec![("f".into(), Node::Flag(false))])]);
    let raw = n.to_mpv_node().unwrap();
    let NodeData::List(Some(list)) = raw.u else { panic!("not a list") };
    assert!(matches!(list.values[0].u, NodeData::Flag(1)));
    let NodeData::List(Some(ref inner)) = list.values[1].u else { panic!("not a map") };
    assert!(matches!(inner.values[0].u, NodeData::Flag(0)));
    assert_eq!(inner.keys, vec![b"f".to_vec()]);
}
