//! Partition discovery: among the device paths that the platform exposes,
//! find the first one that leads to the GPT partition with a given GUID.

use vstd::prelude::*;
use crate::guid::Guid;

verus! {

/// How the disk that holds a partition is partitioned.
#[derive(Clone, Copy, Debug, PartialEq, Eq)]
pub enum PartitionFormat {
    Mbr,
    Gpt,
    Other,
}

/// The signature that a hard-drive node gives its partition.
#[derive(Clone, Copy, Debug, PartialEq, Eq)]
pub enum PartitionSignature {
    Absent,
    Mbr([u8; 4]),
    Guid(Guid),
    Other,
}

/// One node of a device path, as far as partition lookup reads it.
#[derive(Clone, Copy, Debug, PartialEq, Eq)]
pub enum DevicePathNode {
    /// A hard-drive (partition) media node.
    HardDrive { format: PartitionFormat, signature: PartitionSignature },
    /// Any other kind of node.
    Other,
}

/// Whether `n` is a GPT partition node whose GUID signature is `target`.
pub open spec fn node_matches(n: DevicePathNode, target: Seq<u8>) -> bool {
    match n {
        DevicePathNode::HardDrive {
            format: PartitionFormat::Gpt,
            signature: PartitionSignature::Guid(g),
        } => g@ == target,
        _ => false,
    }
}

/// Whether some node of the path `p` matches `target`.
pub open spec fn path_matches(p: Seq<DevicePathNode>, target: Seq<u8>) -> bool {
    exists|k: int| 0 <= k < p.len() && #[trigger] node_matches(p[k], target)
}

/// Whether a device matches: its device path could be bound (`Some`) and
/// one of its nodes matches `target`.
pub open spec fn device_matches(d: Option<Vec<DevicePathNode>>, target: Seq<u8>) -> bool {
    match d {
        Some(p) => path_matches(p@, target),
        None => false,
    }
}

/// Whether the node `n` is a GPT partition node with GUID signature `target`.
pub fn node_is_partition(n: &DevicePathNode, target: &Guid) -> (r: bool)
    ensures
        r == node_matches(*n, target@),
{
    match n {
        DevicePathNode::HardDrive {
            format: PartitionFormat::Gpt,
            signature: PartitionSignature::Guid(g),
        } => g.same_as(target),
        _ => false,
    }
}

/// The position of the first node of `nodes` that matches `target`, if any.
pub fn first_matching_node(nodes: &Vec<DevicePathNode>, target: &Guid) -> (r: Option<usize>)
    ensures
        match r {
            Some(k) => {
                &&& k < nodes@.len()
                &&& node_matches(nodes@[k as int], target@)
                &&& forall|j: int| 0 <= j < k ==> !node_matches(#[trigger] nodes@[j], target@)
            },
            None => !path_matches(nodes@, target@),
        },
{
    let mut i: usize = 0;
    while i < nodes.len()
        invariant
            i <= nodes@.len(),
            forall|j: int| 0 <= j < i ==> !node_matches(#[trigger] nodes@[j], target@),
        decreases nodes@.len() - i,
    {
        if node_is_partition(&nodes[i], target) {
            return Some(i);
        }
        i = i + 1;
    }
    None
}

/// Scans the devices in enumeration order and returns the index of the first
/// one whose device path holds a GPT partition node with GUID signature
/// `target`. A device whose path could not be bound (`None`) is skipped.
/// `None` when no device matches.
pub fn find_partition(devices: &Vec<Option<Vec<DevicePathNode>>>, target: &Guid) -> (r: Option<
    usize,
>)
    ensures
        match r {
            Some(i) => {
                &&& i < devices@.len()
                &&& device_matches(devices@[i as int], target@)
                &&& forall|j: int|
                    0 <= j < i ==> !device_matches(#[trigger] devices@[j], target@)
            },
            None => forall|j: int|
                0 <= j < devices@.len() ==> !device_matches(#[trigger] devices@[j], target@),
        },
{
    let mut i: usize = 0;
    while i < devices.len()
        invariant
            i <= devices@.len(),
            forall|j: int| 0 <= j < i ==> !device_matches(#[trigger] devices@[j], target@),
        decreases devices@.len() - i,
    {
        match &devices[i] {
            Some(nodes) => {
                if let Some(_k) = first_matching_node(nodes, target) {
                    return Some(i);
                }
            },
            None => {},
        }
        i = i + 1;
    }
    None
}

} // verus!
