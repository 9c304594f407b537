//! The topic addressing scheme on the broker.
//!
//! `relay/k/<peer>` carries a peer's retained key package, `relay/w/<peer>` a
//! welcome directed at the peer, `relay/g/<hex>/m` the group's messages and
//! `relay/g/<hex>/i` the retained group information. Topics are handled as
//! byte strings; the surrounding program renders them as UTF-8.

use vstd::prelude::*;
use crate::bytes::{append_bytes, ends_with, is_prefix, is_suffix, slice_range, starts_with};
use crate::hexcode::{hex_enc, lemma_hex_enc_injective, to_hex};

verus! {

/// The bytes of `"relay/k/"`.
pub open spec fn key_prefix() -> Seq<u8> {
    seq![114u8, 101u8, 108u8, 97u8, 121u8, 47u8, 107u8, 47u8]
}

/// The bytes of `"relay/w/"`.
pub open spec fn welcome_prefix() -> Seq<u8> {
    seq![114u8, 101u8, 108u8, 97u8, 121u8, 47u8, 119u8, 47u8]
}

/// The bytes of `"relay/g/"`.
pub open spec fn group_prefix() -> Seq<u8> {
    seq![114u8, 101u8, 108u8, 97u8, 121u8, 47u8, 103u8, 47u8]
}

/// The bytes of `"/m"`.
pub open spec fn msg_suffix() -> Seq<u8> {
    seq![47u8, 109u8]
}

/// The bytes of `"/i"`.
pub open spec fn info_suffix() -> Seq<u8> {
    seq![47u8, 105u8]
}

/// The topic on which a peer publishes its key package.
pub open spec fn key_topic(id: Seq<u8>) -> Seq<u8> {
    key_prefix() + id
}

/// The topic on which a peer receives welcomes.
pub open spec fn welcome_topic(id: Seq<u8>) -> Seq<u8> {
    welcome_prefix() + id
}

/// The topic of a group's messages; `gid` is the raw group identifier,
/// rendered as lowercase hex on the wire.
pub open spec fn group_msg_topic(gid: Seq<u8>) -> Seq<u8> {
    group_prefix() + hex_enc(gid) + msg_suffix()
}

/// The topic of a group's retained group information.
pub open spec fn group_info_topic(gid: Seq<u8>) -> Seq<u8> {
    group_prefix() + hex_enc(gid) + info_suffix()
}

fn key_prefix_vec() -> (v: Vec<u8>)
    ensures
        v@ == key_prefix(),
{
    let mut v: Vec<u8> = Vec::new();
    v.push(114);
    v.push(101);
    v.push(108);
    v.push(97);
    v.push(121);
    v.push(47);
    v.push(107);
    v.push(47);
    proof {
        assert(v@ =~= key_prefix());
    }
    v
}

fn welcome_prefix_vec() -> (v: Vec<u8>)
    ensures
        v@ == welcome_prefix(),
{
    let mut v: Vec<u8> = Vec::new();
    v.push(114);
    v.push(101);
    v.push(108);
    v.push(97);
    v.push(121);
    v.push(47);
    v.push(119);
    v.push(47);
    proof {
        assert(v@ =~= welcome_prefix());
    }
    v
}

fn group_prefix_vec() -> (v: Vec<u8>)
    ensures
        v@ == group_prefix(),
{
    let mut v: Vec<u8> = Vec::new();
    v.push(114);
    v.push(101);
    v.push(108);
    v.push(97);
    v.push(121);
    v.push(47);
    v.push(103);
    v.push(47);
    proof {
        assert(v@ =~= group_prefix());
    }
    v
}

/// Builds the key topic of `id`.
pub fn topic_key(id: &Vec<u8>) -> (r: Vec<u8>)
    requires
        id@.len() + 8 <= usize::MAX,
    ensures
        r@ == key_topic(id@),
{
    let mut v = key_prefix_vec();
    append_bytes(&mut v, id);
    v
}

/// Builds the welcome topic of `id`.
pub fn topic_welcome(id: &Vec<u8>) -> (r: Vec<u8>)
    requires
        id@.len() + 8 <= usize::MAX,
    ensures
        r@ == welcome_topic(id@),
{
    let mut v = welcome_prefix_vec();
    append_bytes(&mut v, id);
    v
}

/// Builds the message topic of the group with raw identifier `gid`.
pub fn topic_group_msg(gid: &Vec<u8>) -> (r: Vec<u8>)
    requires
        2 * gid@.len() + 10 <= usize::MAX,
    ensures
        r@ == group_msg_topic(gid@),
{
    let mut v = group_prefix_vec();
    let h = to_hex(gid);
    append_bytes(&mut v, &h);
    v.push(47);
    v.push(109);
    proof {
        assert(v@ =~= group_msg_topic(gid@));
    }
    v
}

/// Builds the information topic of the group with raw identifier `gid`.
pub fn topic_group_info(gid: &Vec<u8>) -> (r: Vec<u8>)
    requires
        2 * gid@.len() + 10 <= usize::MAX,
    ensures
        r@ == group_info_topic(gid@),
{
    let mut v = group_prefix_vec();
    let h = to_hex(gid);
    append_bytes(&mut v, &h);
    v.push(47);
    v.push(105);
    proof {
        assert(v@ =~= group_info_topic(gid@));
    }
    v
}

/// What a topic addresses. The group variants carry the hex segment between
/// the prefix and the suffix, still hex-rendered.
pub enum TopicKind {
    /// `relay/k/<peer>`: the peer's key package.
    PeerKey(Vec<u8>),
    /// `relay/w/<peer>`: a welcome for the peer.
    Welcome(Vec<u8>),
    /// `relay/g/<hex>/m`: a message of the group.
    GroupMsg(Vec<u8>),
    /// `relay/g/<hex>/i`: the group's information.
    GroupInfo(Vec<u8>),
    /// None of the scheme's forms.
    Other,
}

/// Sorts a topic into the scheme's forms.
pub fn classify_topic(topic: &Vec<u8>) -> (r: TopicKind)
    ensures
        (r is PeerKey) <==> is_prefix(key_prefix(), topic@),
        (r is Welcome) <==> is_prefix(welcome_prefix(), topic@),
        (r is GroupMsg) <==> (is_prefix(group_prefix(), topic@) && topic@.len() >= 10 && is_suffix(
            msg_suffix(),
            topic@,
        )),
        (r is GroupInfo) <==> (is_prefix(group_prefix(), topic@) && topic@.len() >= 10 && (
        !is_suffix(msg_suffix(), topic@)) && is_suffix(info_suffix(), topic@)),
        r matches TopicKind::PeerKey(p) ==> topic@ == key_topic(p@),
        r matches TopicKind::Welcome(p) ==> topic@ == welcome_topic(p@),
        r matches TopicKind::GroupMsg(h) ==> topic@ == group_prefix() + h@ + msg_suffix(),
        r matches TopicKind::GroupInfo(h) ==> topic@ == group_prefix() + h@ + info_suffix(),
{
    let kp = key_prefix_vec();
    let wp = welcome_prefix_vec();
    let gp = group_prefix_vec();
    if starts_with(topic, &kp) {
        let rest = slice_range(topic, 8, topic.len());
        proof {
            assert(topic@ =~= key_topic(topic@.subrange(8, topic@.len() as int)));
        }
        TopicKind::PeerKey(rest)
    } else if starts_with(topic, &wp) {
        let rest = slice_range(topic, 8, topic.len());
        proof {
            assert(topic@ =~= welcome_topic(topic@.subrange(8, topic@.len() as int)));
        }
        TopicKind::Welcome(rest)
    } else if starts_with(topic, &gp) {
        let mut ms: Vec<u8> = Vec::new();
        ms.push(47);
        ms.push(109);
        let mut is: Vec<u8> = Vec::new();
        is.push(47);
        is.push(105);
        proof {
            assert(ms@ =~= msg_suffix());
            assert(is@ =~= info_suffix());
        }
        if topic.len() >= 10 && ends_with(topic, &ms) {
            let mid = slice_range(topic, 8, topic.len() - 2);
            proof {
                assert(topic@ =~= group_prefix() + topic@.subrange(8, topic@.len() - 2)
                    + msg_suffix());
            }
            TopicKind::GroupMsg(mid)
        } else if topic.len() >= 10 && ends_with(topic, &is) {
            let mid = slice_range(topic, 8, topic.len() - 2);
            proof {
                assert(topic@ =~= group_prefix() + topic@.subrange(8, topic@.len() - 2)
                    + info_suffix());
            }
            TopicKind::GroupInfo(mid)
        } else {
            TopicKind::Other
        }
    } else {
        TopicKind::Other
    }
}

/// Key topics of distinct peers are distinct.
pub proof fn lemma_key_topic_injective(a: Seq<u8>, b: Seq<u8>)
    requires
        key_topic(a) == key_topic(b),
    ensures
        a == b,
{
    assert(a =~= key_topic(a).subrange(8, key_topic(a).len() as int));
    assert(b =~= key_topic(b).subrange(8, key_topic(b).len() as int));
}

/// Welcome topics of distinct peers are distinct.
pub proof fn lemma_welcome_topic_injective(a: Seq<u8>, b: Seq<u8>)
    requires
        welcome_topic(a) == welcome_topic(b),
    ensures
        a == b,
{
    assert(a =~= welcome_topic(a).subrange(8, welcome_topic(a).len() as int));
    assert(b =~= welcome_topic(b).subrange(8, welcome_topic(b).len() as int));
}

/// Message topics of distinct groups are distinct.
pub proof fn lemma_group_msg_topic_injective(a: Seq<u8>, b: Seq<u8>)
    requires
        group_msg_topic(a) == group_msg_topic(b),
    ensures
        a == b,
{
    let ta = group_msg_topic(a);
    let tb = group_msg_topic(b);
    assert(hex_enc(a) =~= ta.subrange(8, ta.len() - 2));
    assert(hex_enc(b) =~= tb.subrange(8, tb.len() - 2));
    lemma_hex_enc_injective(a, b);
}

} // verus!
