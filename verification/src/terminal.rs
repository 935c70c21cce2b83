//! Terminal sharing: the input typed for the shared shell, the output it
//! produced that viewers have not been sent yet, and the frames that carry
//! that output.

use vstd::prelude::*;
use crate::protocol::{MAX_FRAME_SIZE, frame_bytes, write_frame};
use crate::tui::{Key, key_bytes, key_to_bytes};

verus! {

/// The shared shell of a terminal sharer, as far as its input goes: the
/// bytes typed for it that have not been written to it yet.
pub struct TerminalShareHandle {
    input: Vec<u8>,
}

impl View for TerminalShareHandle {
    type V = Seq<u8>;

    closed spec fn view(&self) -> Seq<u8> {
        self.input@
    }
}

impl TerminalShareHandle {
    /// A shell with no pending input.
    pub fn new() -> (res: TerminalShareHandle)
        ensures
            res@ == Seq::<u8>::empty(),
    {
        TerminalShareHandle { input: Vec::new() }
    }

    /// Writes user input for the shell: it follows what is already pending,
    /// and the program hands pending input to the shell (see
    /// [`TerminalShareHandle::take_input`]).
    pub fn write_input(&mut self, data: &[u8])
        ensures
            final(self)@ == old(self)@ + data@,
    {
        let mut i: usize = 0;
        let ghost start = self.input@;
        while i < data.len()
            invariant
                i <= data@.len(),
                self.input@ == start + data@.subrange(0, i as int),
            decreases data@.len() - i,
        {
            self.input.push(data[i]);
            assert(data@.subrange(0, i + 1) == data@.subrange(0, i as int).push(data@[i as int]));
            i = i + 1;
        }
        assert(data@.subrange(0, data@.len() as int) == data@);
    }

    /// Forwards a key pressed while sharing to the shell: its bytes follow
    /// what is already pending (a key with no bytes adds nothing).
    pub fn forward_key(&mut self, key: Key)
        ensures
            final(self)@ == old(self)@ + key_bytes(key),
    {
        let bytes = key_to_bytes(key);
        if bytes.len() > 0 {
            self.write_input(bytes.as_slice());
        } else {
            assert(old(self)@ + bytes@ =~= old(self)@);
        }
    }

    /// Takes the pending input, in the order it was written, for the shell.
    pub fn take_input(&mut self) -> (res: Vec<u8>)
        ensures
            res@ == old(self)@,
            final(self)@ == Seq::<u8>::empty(),
    {
        let mut taken: Vec<u8> = Vec::new();
        std::mem::swap(&mut taken, &mut self.input);
        taken
    }
}

/// Appends `bytes` to `buf`.
fn append_bytes(buf: &mut Vec<u8>, bytes: &[u8])
    ensures
        final(buf)@ == old(buf)@ + bytes@,
{
    let mut i: usize = 0;
    let ghost start = buf@;
    while i < bytes.len()
        invariant
            i <= bytes@.len(),
            buf@ == start + bytes@.subrange(0, i as int),
        decreases bytes@.len() - i,
    {
        buf.push(bytes[i]);
        assert(bytes@.subrange(0, i + 1) == bytes@.subrange(0, i as int).push(bytes@[i as int]));
        i = i + 1;
    }
    assert(bytes@.subrange(0, bytes@.len() as int) == bytes@);
}

/// Each viewer's pending output after the shell wrote `bytes`: every
/// connected viewer gets them after what it has pending.
pub open spec fn pushed(s: Seq<Option<Seq<u8>>>, bytes: Seq<u8>) -> Seq<Option<Seq<u8>>> {
    Seq::new(
        s.len(),
        |i: int|
            match s[i] {
                Some(b) => Some(b + bytes),
                None => None,
            },
    )
}

/// Each viewer's pending output after the shell wrote `outputs`, in order.
pub open spec fn pushed_all(s: Seq<Option<Seq<u8>>>, outputs: Seq<Seq<u8>>) -> Seq<Option<Seq<u8>>>
    decreases outputs.len(),
{
    if outputs.len() == 0 {
        s
    } else {
        pushed(pushed_all(s, outputs.drop_last()), outputs.last())
    }
}

/// The bytes of `outputs`, one after the other.
pub open spec fn concat_all(outputs: Seq<Seq<u8>>) -> Seq<u8>
    decreases outputs.len(),
{
    if outputs.len() == 0 {
        Seq::empty()
    } else {
        concat_all(outputs.drop_last()) + outputs.last()
    }
}

/// Output waits for connected viewer `viewer`.
pub open spec fn has_pending(s: Seq<Option<Seq<u8>>>, viewer: int) -> bool {
    0 <= viewer < s.len() && s[viewer] is Some && s[viewer]->0.len() > 0
}

/// Output of the shared shell not yet sent, for each viewer that connected
/// (`None` once the viewer has left), and the output that no viewer has
/// taken yet (since sharing began or since a viewer last took its output),
/// which a viewer is sent first when it connects.
pub struct TerminalOutput {
    backlog: Vec<u8>,
    viewers: Vec<Option<Vec<u8>>>,
}

impl View for TerminalOutput {
    type V = Seq<Option<Seq<u8>>>;

    closed spec fn view(&self) -> Seq<Option<Seq<u8>>> {
        Seq::new(
            self.viewers@.len(),
            |i: int|
                match self.viewers@[i] {
                    Some(b) => Some(b@),
                    None => None,
                },
        )
    }
}

impl TerminalOutput {
    /// The output that no viewer has taken yet.
    pub closed spec fn backlog(&self) -> Seq<u8> {
        self.backlog@
    }

    /// No viewer and no output yet.
    pub fn new() -> (res: TerminalOutput)
        ensures
            res@ == Seq::<Option<Seq<u8>>>::empty(),
            res.backlog() == Seq::<u8>::empty(),
    {
        let res = TerminalOutput { backlog: Vec::new(), viewers: Vec::new() };
        assert(res@ =~= Seq::<Option<Seq<u8>>>::empty());
        res
    }

    /// A viewer connects: it is sent the output no viewer has taken yet,
    /// then the output written from now on. Returns its number.
    pub fn add_viewer(&mut self) -> (res: usize)
        ensures
            res == old(self)@.len(),
            final(self)@ == old(self)@.push(Some(old(self).backlog())),
            final(self).backlog() == old(self).backlog(),
    {
        let n = self.viewers.len();
        let mut pending: Vec<u8> = Vec::new();
        append_bytes(&mut pending, self.backlog.as_slice());
        assert(pending@ =~= self.backlog@);
        self.viewers.push(Some(pending));
        assert(self@ =~= old(self)@.push(Some(old(self).backlog())));
        n
    }

    /// A viewer has left: nothing more is kept for it.
    pub fn remove_viewer(&mut self, viewer: usize)
        ensures
            viewer < old(self)@.len() ==> final(self)@ == old(self)@.update(viewer as int, None),
            viewer >= old(self)@.len() ==> final(self)@ == old(self)@,
            final(self).backlog() == old(self).backlog(),
    {
        if viewer < self.viewers.len() {
            self.viewers.set(viewer, None);
            assert(self@ =~= old(self)@.update(viewer as int, None));
        }
    }

    /// Records output read from the shell for every connected viewer, after
    /// what each has pending, and after the output no viewer has taken.
    pub fn push_output(&mut self, bytes: &[u8])
        ensures
            final(self)@ == pushed(old(self)@, bytes@),
            final(self).backlog() == old(self).backlog() + bytes@,
    {
        append_bytes(&mut self.backlog, bytes);
        let ghost new_backlog = self.backlog@;
        let ghost start = self@;
        let mut rest: Vec<Option<Vec<u8>>> = Vec::new();
        std::mem::swap(&mut rest, &mut self.viewers);
        let ghost all = rest@;
        let n = rest.len();
        let mut i: usize = 0;
        while i < n
            invariant
                n == all.len(),
                i <= n,
                rest@ == all.skip(i as int),
                start.len() == n,
                forall|k: int| 0 <= k < n ==> #[trigger] start[k] == match all[k] {
                    Some(b) => Some(b@),
                    None => None::<Seq<u8>>,
                },
                self.viewers@.len() == i,
                self.backlog@ == new_backlog,
                forall|k: int| 0 <= k < i ==> #[trigger] self@[k] == pushed(start, bytes@)[k],
            decreases n - i,
        {
            let slot = rest.remove(0);
            assert(slot == all[i as int]);
            assert(rest@ =~= all.skip(i + 1));
            let ghost before = self.viewers@;
            let ghost before_view = self@;
            match slot {
                Some(mut b) => {
                    let ghost old_b = b@;
                    append_bytes(&mut b, bytes);
                    self.viewers.push(Some(b));
                    assert(start[i as int] == Some(old_b));
                    assert(self@[i as int] == Some(old_b + bytes@));
                },
                None => {
                    self.viewers.push(None);
                    assert(self@[i as int] == None::<Seq<u8>>);
                },
            }
            assert forall|k: int| 0 <= k < i + 1 implies #[trigger] self@[k] == pushed(start, bytes@)[k] by {
                if k < i {
                    assert(self.viewers@[k] == before[k]);
                    assert(self@[k] == before_view[k]);
                }
            }
            i = i + 1;
        }
        assert(self@ =~= pushed(start, bytes@));
    }

    /// Takes everything waiting for a viewer; `None` when nothing waits for
    /// it (or it is not connected). Output taken by a viewer is no longer
    /// kept for viewers yet to connect.
    pub fn take_chunk(&mut self, viewer: usize) -> (res: Option<Vec<u8>>)
        ensures
            has_pending(old(self)@, viewer as int) ==> (res matches Some(c) && Some(c@) == old(self)@[viewer as int] && final(self)@
                == old(self)@.update(viewer as int, Some(Seq::<u8>::empty()))
                && final(self).backlog() == Seq::<u8>::empty()),
            !has_pending(old(self)@, viewer as int) ==> (res is None && final(self)@ == old(self)@
                && final(self).backlog() == old(self).backlog()),
    {
        if viewer >= self.viewers.len() {
            return None;
        }
        let mut taken: Option<Vec<u8>> = Some(Vec::new());
        self.viewers.set_and_swap(viewer, &mut taken);
        match taken {
            Some(b) => {
                if b.len() > 0 {
                    self.backlog = Vec::new();
                    assert(self@ =~= old(self)@.update(viewer as int, Some(Seq::<u8>::empty())));
                    Some(b)
                } else {
                    assert(b@ =~= Seq::<u8>::empty());
                    assert(self@ =~= old(self)@);
                    None
                }
            },
            None => {
                self.viewers.set(viewer, None);
                assert(self@ =~= old(self)@);
                None
            },
        }
    }
}

/// A connected viewer is sent what it has pending (for a viewer that just
/// connected: the output no viewer had taken), then, in order, every byte
/// the shell writes from then on, whatever other viewers take.
pub proof fn law_every_viewer_gets_all_output(
    s: Seq<Option<Seq<u8>>>,
    viewer: int,
    outputs: Seq<Seq<u8>>,
)
    requires
        0 <= viewer < s.len(),
        s[viewer] is Some,
    ensures
        pushed_all(s, outputs).len() == s.len(),
        pushed_all(s, outputs)[viewer] == Some(s[viewer]->0 + concat_all(outputs)),
    decreases outputs.len(),
{
    if outputs.len() > 0 {
        law_every_viewer_gets_all_output(s, viewer, outputs.drop_last());
        let prev = s[viewer]->0 + concat_all(outputs.drop_last());
        assert(prev + outputs.last() =~= s[viewer]->0 + concat_all(outputs));
    } else {
        assert(s[viewer]->0 + concat_all(outputs) =~= s[viewer]->0);
    }
}

/// The frame that carries a chunk of output to a viewer; `None` for a chunk
/// whose length, taken as a `u32`, exceeds [`MAX_FRAME_SIZE`]: such a chunk
/// is dropped.
pub fn terminal_frame(chunk: &[u8]) -> (res: Option<Vec<u8>>)
    ensures
        (chunk@.len() as u32) > MAX_FRAME_SIZE ==> res is None,
        (chunk@.len() as u32) <= MAX_FRAME_SIZE ==> (res matches Some(f) && f@ == frame_bytes(chunk@)),
{
    let len = chunk.len() as u32;
    if len > MAX_FRAME_SIZE {
        return None;
    }
    let mut out: Vec<u8> = Vec::new();
    write_frame(&mut out, chunk);
    assert(out@ =~= frame_bytes(chunk@));
    Some(out)
}

} // verus!
