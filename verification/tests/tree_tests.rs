//! The breadth-first object tree walk and its slash-joined paths.

use ptp::datasets::ObjectInfo;
use ptp::tree::ObjectTree;

fn info(filename: &str) -> ObjectInfo {
    ObjectInfo {
        StorageID: 1,
        ObjectFormat: 0x3801,
        ProtectionStatus: 0,
        ObjectCompressedSize: 0,
        ThumbFormat: 0,
        ThumbCompressedSize: 0,
        ThumbPixWidth: 0,
        ThumbPixHeight: 0,
        ImagePixWidth: 0,
        ImagePixHeight: 0,
        ImageBitDepth: 0,
        ParentObject: 0,
        AssociationType: 0,
        AssociationDesc: 0,
        SequenceNumber: 0,
        Filename: filename.to_owned(),
        CaptureDate: String::new(),
        ModificationDate: String::new(),
        Keywords: String::new(),
    }
}

fn leaf(handle: u32, filename: &str) -> ObjectTree {
    ObjectTree { handle, info: info(filename), children: None }
}

#[test]
fn walk_single_node_uses_its_own_filename() {
    let root = leaf(1, "DCIM");
    let out = root.walk();
    assert_eq!(out.len(), 1);
    assert_eq!(out[0].0, "DCIM");
    assert_eq!(out[0].1.handle, 1);
}

#[test]
fn walk_is_breadth_first_with_joined_paths() {
    let tree = ObjectTree {
        handle: 1,
        info: info("DCIM"),
        children: Some(vec![
            ObjectTree {
                handle: 2,
                info: info("100CANON"),
                children: Some(vec![leaf(4, "IMG_0001.JPG"), leaf(5, "IMG_0002.JPG")]),
            },
            leaf(3, "MISC"),
        ]),
    };
    let out = tree.walk();
    let paths: Vec<&str> = out.iter().map(|e| e.0.as_str()).collect();
    assert_eq!(
        paths,
        vec![
            "DCIM",
            "DCIM/100CANON",
            "DCIM/MISC",
            "DCIM/100CANON/IMG_0001.JPG",
            "DCIM/100CANON/IMG_0002.JPG",
        ]
    );
    let handles: Vec<u32> = out.iter().map(|e| e.1.handle).collect();
    assert_eq!(handles, vec![1, 2, 3, 4, 5]);
    // the emitted node keeps its subtree
    assert!(out[1].1.children.as_ref().unwrap().len() == 2);
}

#[test]
fn walk_node_with_empty_child_list() {
    let tree = ObjectTree { handle: 9, info: info("STORE"), children: Some(vec![]) };
    let out = tree.walk();
    assert_eq!(out.len(), 1);
    assert_eq!(out[0].0, "STORE");
}

#[test]
fn clone_preserves_the_subtree() {
    let tree = ObjectTree {
        handle: 1,
        info: info("A"),
        children: Some(vec![leaf(2, "B")]),
    };
    let copy = tree.clone();
    assert_eq!(copy.handle, 1);
    assert_eq!(copy.info.Filename, "A");
    let kids = copy.children.unwrap();
    assert_eq!(kids.len(), 1);
    assert_eq!(kids[0].info.Filename, "B");
}
