//! Application messages and the cutting of their encoded form into fragments.

use crate::packet::{clone_bytes, clone_hops, Fragment, FragmentView, NodeId, FRAGMENT_DSIZE};
use vstd::prelude::*;

verus! {

/// Kind of service a server leaf offers.
#[derive(Clone, Copy, Debug, PartialEq, Eq, Structural)]
pub enum ServerType {
    Chat,
    Text,
    Media,
}

/// Application-level message exchanged with a server leaf. Chat payloads are
/// carried as the bytes the front-end protocol encodes them to.
#[derive(Debug, PartialEq, Eq)]
pub enum Message {
    ReqServerType,
    RespServerType(ServerType),
    ReqChatRegistration,
    ReqChatClients,
    RespClientList(Vec<NodeId>),
    ReqChatSend { to: NodeId, chat_msg: Vec<u8> },
    RespChatFrom { from: NodeId, chat_msg: Vec<u8> },
    ErrUnsupportedRequestType,
    ErrNotExistentClient,
}

/// Mathematical value of a [`Message`].
pub enum MessageView {
    ReqServerType,
    RespServerType(ServerType),
    ReqChatRegistration,
    ReqChatClients,
    RespClientList(Seq<NodeId>),
    ReqChatSend { to: NodeId, chat_msg: Seq<u8> },
    RespChatFrom { from: NodeId, chat_msg: Seq<u8> },
    ErrUnsupportedRequestType,
    ErrNotExistentClient,
}

impl View for Message {
    type V = MessageView;

    open spec fn view(&self) -> MessageView {
        match self {
            Message::ReqServerType => MessageView::ReqServerType,
            Message::RespServerType(t) => MessageView::RespServerType(*t),
            Message::ReqChatRegistration => MessageView::ReqChatRegistration,
            Message::ReqChatClients => MessageView::ReqChatClients,
            Message::RespClientList(peers) => MessageView::RespClientList(peers@),
            Message::ReqChatSend { to, chat_msg } => MessageView::ReqChatSend {
                to: *to,
                chat_msg: chat_msg@,
            },
            Message::RespChatFrom { from, chat_msg } => MessageView::RespChatFrom {
                from: *from,
                chat_msg: chat_msg@,
            },
            Message::ErrUnsupportedRequestType => MessageView::ErrUnsupportedRequestType,
            Message::ErrNotExistentClient => MessageView::ErrNotExistentClient,
        }
    }
}

impl MessageView {
    /// The chat peer a message is relayed to: the addressee of a chat-send,
    /// nobody for any other message.
    pub open spec fn recipient(self) -> Option<NodeId> {
        match self {
            MessageView::ReqChatSend { to, .. } => Some(to),
            _ => None,
        }
    }
}

impl Clone for Message {
    fn clone(&self) -> (res: Self)
        ensures
            res@ == self@,
    {
        match self {
            Message::ReqServerType => Message::ReqServerType,
            Message::RespServerType(t) => Message::RespServerType(*t),
            Message::ReqChatRegistration => Message::ReqChatRegistration,
            Message::ReqChatClients => Message::ReqChatClients,
            Message::RespClientList(peers) => Message::RespClientList(clone_hops(peers)),
            Message::ReqChatSend { to, chat_msg } => Message::ReqChatSend {
                to: *to,
                chat_msg: clone_bytes(chat_msg),
            },
            Message::RespChatFrom { from, chat_msg } => Message::RespChatFrom {
                from: *from,
                chat_msg: clone_bytes(chat_msg),
            },
            Message::ErrUnsupportedRequestType => Message::ErrUnsupportedRequestType,
            Message::ErrNotExistentClient => Message::ErrNotExistentClient,
        }
    }
}

impl Message {
    /// The chat peer the message is relayed to, if it is a chat-send.
    pub fn recipient(&self) -> (res: Option<NodeId>)
        ensures
            res == self@.recipient(),
    {
        match self {
            Message::ReqChatSend { to, .. } => Some(*to),
            _ => None,
        }
    }

    /// Whether the message asks a chat server to register this client.
    pub fn is_chat_registration(&self) -> (res: bool)
        ensures
            res == (self@ is ReqChatRegistration),
    {
        match self {
            Message::ReqChatRegistration => true,
            _ => false,
        }
    }
}

/// The values of a list of fragments.
pub open spec fn fragment_views(frags: Seq<Fragment>) -> Seq<FragmentView> {
    Seq::new(frags.len(), |i: int| frags[i]@)
}

/// Number of fragments a payload of `len` bytes is cut into: one per started
/// block of [`FRAGMENT_DSIZE`] bytes, and one for the empty payload.
pub open spec fn fragment_count(len: nat) -> nat {
    if len == 0 {
        1
    } else {
        ((len + FRAGMENT_DSIZE - 1) / (FRAGMENT_DSIZE as int)) as nat
    }
}

/// The bytes the `i`-th fragment of `bytes` carries.
pub open spec fn fragment_data(bytes: Seq<u8>, i: int) -> Seq<u8> {
    let start = i * FRAGMENT_DSIZE;
    let end = if start + FRAGMENT_DSIZE <= bytes.len() {
        start + FRAGMENT_DSIZE
    } else {
        bytes.len() as int
    };
    bytes.subrange(start, end)
}

/// The fragments of `bytes`, in index order.
pub open spec fn fragments_of(bytes: Seq<u8>) -> Seq<FragmentView> {
    Seq::new(
        fragment_count(bytes.len()),
        |i: int|
            FragmentView {
                fragment_index: i as u64,
                total_n_fragments: fragment_count(bytes.len()) as u64,
                data: fragment_data(bytes, i),
            },
    )
}

/// The payloads of `frags` joined in list order.
pub open spec fn joined_data(frags: Seq<FragmentView>) -> Seq<u8>
    decreases frags.len(),
{
    if frags.len() == 0 {
        Seq::empty()
    } else {
        joined_data(frags.drop_last()) + frags.last().data
    }
}

/// Cuts an encoded message into fragments of at most [`FRAGMENT_DSIZE`]
/// bytes. The empty payload gives one fragment without data.
pub fn into_fragments(bytes: &Vec<u8>) -> (res: Vec<Fragment>)
    ensures
        fragment_views(res@) == fragments_of(bytes@),
{
    let len = bytes.len();
    let total: usize = if len == 0 {
        1
    } else {
        (len - 1) / FRAGMENT_DSIZE + 1
    };
    assert(total == fragment_count(len as nat));
    let mut out: Vec<Fragment> = Vec::new();
    let mut i: usize = 0;
    while i < total
        invariant
            len == bytes.len(),
            total == fragment_count(len as nat),
            i <= total,
            out.len() == i,
            forall|j: int| 0 <= j < i ==> (#[trigger] out@[j])@ == fragments_of(bytes@)[j],
        decreases total - i,
    {
        let start: usize = i * FRAGMENT_DSIZE;
        let end: usize = if len - start >= FRAGMENT_DSIZE {
            start + FRAGMENT_DSIZE
        } else {
            len
        };
        let mut data: Vec<u8> = Vec::new();
        let mut k: usize = start;
        while k < end
            invariant
                start <= k <= end <= bytes.len(),
                data@ == bytes@.subrange(start as int, k as int),
            decreases end - k,
        {
            data.push(bytes[k]);
            assert(data@ == bytes@.subrange(start as int, k + 1));
            k += 1;
        }
        assert(data@ == fragment_data(bytes@, i as int));
        out.push(Fragment { fragment_index: i as u64, total_n_fragments: total as u64, data });
        i += 1;
    }
    assert(fragment_views(out@) =~= fragments_of(bytes@));
    out
}

/// Joins the payloads of `frags` in list order.
pub fn join_fragments(frags: &Vec<Fragment>) -> (res: Vec<u8>)
    ensures
        res@ == joined_data(fragment_views(frags@)),
{
    let mut out: Vec<u8> = Vec::new();
    let mut i: usize = 0;
    assert(fragment_views(frags@).subrange(0, 0) =~= Seq::<FragmentView>::empty());
    while i < frags.len()
        invariant
            i <= frags.len(),
            out@ == joined_data(fragment_views(frags@).subrange(0, i as int)),
        decreases frags.len() - i,
    {
        let ghost before = out@;
        let data = &frags[i].data;
        let mut k: usize = 0;
        while k < data.len()
            invariant
                k <= data.len(),
                out@ == before + data@.subrange(0, k as int),
            decreases data.len() - k,
        {
            out.push(data[k]);
            assert(out@ == before + data@.subrange(0, k + 1));
            k += 1;
        }
        proof {
            let all = fragment_views(frags@);
            assert(data@.subrange(0, data.len() as int) == data@);
            assert(all.subrange(0, i + 1).drop_last() == all.subrange(0, i as int));
            assert(all.subrange(0, i + 1).last() == frags@[i as int]@);
        }
        i += 1;
    }
    assert(fragment_views(frags@).subrange(0, frags.len() as int) == fragment_views(frags@));
    out
}

/// The first `n` fragments of `bytes` join to the first bytes of `bytes`, up
/// to the end of the `n`-th block.
proof fn lemma_joined_prefix(bytes: Seq<u8>, n: nat)
    requires
        n <= fragment_count(bytes.len()),
    ensures
        joined_data(fragments_of(bytes).subrange(0, n as int)) == bytes.subrange(
            0,
            if n * FRAGMENT_DSIZE <= bytes.len() {
                (n * FRAGMENT_DSIZE) as int
            } else {
                bytes.len() as int
            },
        ),
    decreases n,
{
    let all = fragments_of(bytes);
    if n == 0 {
        assert(all.subrange(0, 0) =~= Seq::<FragmentView>::empty());
        assert(bytes.subrange(0, 0) =~= Seq::<u8>::empty());
    } else {
        lemma_joined_prefix(bytes, (n - 1) as nat);
        let sub = all.subrange(0, n as int);
        assert(sub.drop_last() == all.subrange(0, n - 1));
        assert(sub.last().data == fragment_data(bytes, n - 1));
        let end: int = if n * FRAGMENT_DSIZE <= bytes.len() {
            (n * FRAGMENT_DSIZE) as int
        } else {
            bytes.len() as int
        };
        assert(bytes.subrange(0, (n - 1) * FRAGMENT_DSIZE) + bytes.subrange(
            (n - 1) * FRAGMENT_DSIZE,
            end,
        ) == bytes.subrange(0, end));
    }
}

/// No fragment of a payload carries more than [`FRAGMENT_DSIZE`] bytes, and
/// every fragment but the last carries exactly that many.
pub proof fn lemma_fragment_sizes(bytes: Seq<u8>, i: int)
    requires
        0 <= i < fragments_of(bytes).len(),
    ensures
        fragments_of(bytes)[i].data.len() <= FRAGMENT_DSIZE,
        i < fragments_of(bytes).len() - 1 ==> fragments_of(bytes)[i].data.len() == FRAGMENT_DSIZE,
{
}

/// Cutting a payload into fragments and joining them again, in order, gives
/// the payload back.
pub proof fn lemma_fragment_round_trip(bytes: Seq<u8>)
    ensures
        joined_data(fragments_of(bytes)) == bytes,
{
    let all = fragments_of(bytes);
    lemma_joined_prefix(bytes, all.len());
    assert(all.subrange(0, all.len() as int) == all);
    assert(bytes.subrange(0, bytes.len() as int) == bytes);
}

} // verus!
