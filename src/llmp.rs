//! The parts of the low-level message passing that the event layer reads:
//! messages, a single-page sender, and client endpoint descriptions.
use vstd::prelude::*;

verus! {

/// A message on a page: who sent it, its tag and its bytes.
#[derive(Debug, Clone)]
pub struct LlmpMsg {
    pub sender: u32,
    pub tag: u32,
    pub buf: Vec<u8>,
}

/// The mathematical value of a message.
pub ghost struct LlmpMsgView {
    pub sender: u32,
    pub tag: u32,
    pub buf: Seq<u8>,
}

impl View for LlmpMsg {
    type V = LlmpMsgView;

    open spec fn view(&self) -> LlmpMsgView {
        LlmpMsgView { sender: self.sender, tag: self.tag, buf: self.buf@ }
    }
}

/// What another process needs to map the pages of a client again.
#[derive(Debug, Clone, Copy, PartialEq, Eq, Structural)]
pub struct LlmpClientDescription {
    pub client_id: u32,
    pub sender_map_id: u64,
    pub receiver_map_id: u64,
}

/// The single page that one writer sends on. Its write cursor can be put
/// back to the start, which empties it.
pub struct LlmpSender {
    id: u32,
    map_id: u64,
    msgs: Vec<LlmpMsg>,
}

impl LlmpSender {
    /// The messages on the page, oldest first.
    pub closed spec fn msgs(&self) -> Seq<LlmpMsgView> {
        self.msgs@.map_values(|m: LlmpMsg| m@)
    }

    /// The sender id written into each message.
    pub closed spec fn id_spec(&self) -> u32 {
        self.id
    }

    /// The identity of the page.
    pub closed spec fn map_id_spec(&self) -> u64 {
        self.map_id
    }

    /// An empty page with the given identity.
    pub fn new(id: u32, map_id: u64) -> (r: LlmpSender)
        ensures
            r.msgs() == Seq::<LlmpMsgView>::empty(),
            r.id_spec() == id,
            r.map_id_spec() == map_id,
    {
        let r = LlmpSender { id, map_id, msgs: Vec::new() };
        assert(r.msgs() =~= Seq::<LlmpMsgView>::empty());
        r
    }

    /// The sender id written into each message.
    pub fn id(&self) -> (r: u32)
        ensures
            r == self.id_spec(),
    {
        self.id
    }

    /// The identity of the page.
    pub fn map_id(&self) -> (r: u64)
        ensures
            r == self.map_id_spec(),
    {
        self.map_id
    }

    /// Appends a message.
    pub fn send_buf(&mut self, tag: u32, buf: Vec<u8>)
        ensures
            final(self).msgs() == old(self).msgs().push(
                LlmpMsgView { sender: old(self).id_spec(), tag, buf: buf@ },
            ),
            final(self).id_spec() == old(self).id_spec(),
            final(self).map_id_spec() == old(self).map_id_spec(),
    {
        let m = LlmpMsg { sender: self.id, tag, buf };
        self.msgs.push(m);
        assert(self.msgs() =~= old(self).msgs().push(
            LlmpMsgView { sender: old(self).id_spec(), tag, buf: m.buf@ },
        ));
    }

    /// Puts the write cursor back to the start of the page.
    pub fn reset(&mut self)
        ensures
            final(self).msgs() == Seq::<LlmpMsgView>::empty(),
            final(self).id_spec() == old(self).id_spec(),
            final(self).map_id_spec() == old(self).map_id_spec(),
    {
        self.msgs = Vec::new();
        assert(self.msgs() =~= Seq::<LlmpMsgView>::empty());
    }

    /// How many messages the page holds; zero when nothing was sent since
    /// the last reset.
    pub fn size_used(&self) -> (r: usize)
        ensures
            r == self.msgs().len(),
    {
        self.msgs.len()
    }

    /// The most recent message on the page, if any.
    pub fn recv_buf(&self) -> (r: Option<LlmpMsg>)
        ensures
            self.msgs().len() == 0 ==> r is None,
            self.msgs().len() > 0 ==> r is Some && r->Some_0@ == self.msgs().last(),
    {
        if self.msgs.len() == 0 {
            None
        } else {
            let m = &self.msgs[self.msgs.len() - 1];
            Some(LlmpMsg { sender: m.sender, tag: m.tag, buf: copy_bytes(&m.buf) })
        }
    }
}

/// A copy of a byte vector.
pub fn copy_bytes(b: &Vec<u8>) -> (r: Vec<u8>)
    ensures
        r@ == b@,
{
    let mut out: Vec<u8> = Vec::new();
    let mut i: usize = 0;
    while i < b.len()
        invariant
            i <= b@.len(),
            out@ == b@.subrange(0, i as int),
        decreases b@.len() - i,
    {
        out.push(b[i]);
        i = i + 1;
        assert(out@ =~= b@.subrange(0, i as int));
    }
    assert(out@ =~= b@);
    out
}

} // verus!
