use vstd::prelude::*;

use crate::chapter::Chapter;
use crate::chapter::ChapterView;
use crate::relay::Relay;
use crate::relay::RelayRecv;
use crate::relay::RelayView;

verus! {

/// The fixed permission mode every archive entry carries.
pub open spec fn entry_mode() -> u32 {
    0o777
}

/// One unit of the output archive: a container header's fields and the raw
/// bytes that follow it.
pub struct ArchiveEntry {
    pub name: String,
    pub size: u64,
    pub mode: u32,
    pub content: Vec<u8>,
}

/// The mathematical model of an archive entry.
#[verifier::ext_equal]
pub struct EntryView {
    pub name: Seq<char>,
    pub size: nat,
    pub mode: u32,
    pub content: Seq<u8>,
}

impl View for ArchiveEntry {
    type V = EntryView;

    open spec fn view(&self) -> EntryView {
        EntryView {
            name: self.name@,
            size: self.size as nat,
            mode: self.mode,
            content: self.content@,
        }
    }
}

/// The entry a chapter becomes: same name, same bytes, the declared size
/// equal to the content's byte length, and the fixed mode.
pub open spec fn entry_of(c: ChapterView) -> EntryView {
    EntryView { name: c.name, size: c.content.len(), mode: entry_mode(), content: c.content }
}

/// Builds the archive entry for one chapter. The declared size always equals
/// the content's byte length.
pub fn make_entry(chapter: Chapter) -> (e: ArchiveEntry)
    ensures
        e@ == entry_of(chapter@),
{
    let size = chapter.content.len() as u64;
    ArchiveEntry { name: chapter.name, size, mode: 0o777, content: chapter.content }
}

/// What the archive writer does in reaction to one read from the relay.
pub enum WriterAction {
    /// Append this entry to the archive container.
    Append(ArchiveEntry),
    /// A lag notification is not fatal: keep reading.
    Continue,
    /// End of stream: finalize the container, the compressor and the file,
    /// in that order.
    Finish,
    /// Nothing pending yet: wait for the producer.
    Wait,
}

/// The writer's decision for one observed relay event: a chapter becomes an
/// appended entry, lag is absorbed, a closed channel ends the drain.
pub fn writer_decision(event: RelayRecv) -> (a: WriterAction)
    ensures
        match event {
            RelayRecv::Item(c) => a matches WriterAction::Append(e) && e@ == entry_of(c@),
            RelayRecv::Lagged(_) => a is Continue,
            RelayRecv::Closed => a is Finish,
            RelayRecv::Empty => a is Wait,
        },
{
    match event {
        RelayRecv::Item(chapter) => WriterAction::Append(make_entry(chapter)),
        RelayRecv::Lagged(_) => WriterAction::Continue,
        RelayRecv::Closed => WriterAction::Finish,
        RelayRecv::Empty => WriterAction::Wait,
    }
}

/// Drains a relay whose producer side has closed: every pending chapter
/// becomes one archive entry, in relay order; a pending lag notification is
/// absorbed, not an error. On return the relay has signalled end of stream.
pub fn drain_relay(relay: &mut Relay) -> (entries: Vec<ArchiveEntry>)
    requires
        old(relay).wf(),
        !old(relay)@.sender_open,
    ensures
        final(relay).wf(),
        entries@.map_values(|e: ArchiveEntry| e@) == old(relay)@.pending.map_values(
            |c: ChapterView| entry_of(c),
        ),
        final(relay)@ == (RelayView { pending: Seq::empty(), lag: 0, ..old(relay)@ }),
{
    let ghost v0 = relay@;
    let mut entries: Vec<ArchiveEntry> = Vec::new();
    proof {
        assert(entries@.map_values(|e: ArchiveEntry| e@) =~= v0.pending.take(0).map_values(
            |c: ChapterView| entry_of(c)));
    }
    loop
        invariant
            relay.wf(),
            !relay@.sender_open,
            !v0.sender_open,
            relay@.capacity == v0.capacity,
            relay@.receiver_open == v0.receiver_open,
            relay@.lag == 0 || relay@ == v0,
            entries@.len() <= v0.pending.len(),
            relay@.pending =~= v0.pending.skip(entries@.len() as int),
            entries@.map_values(|e: ArchiveEntry| e@) =~= v0.pending.take(
                entries@.len() as int,
            ).map_values(|c: ChapterView| entry_of(c)),
            v0 == old(relay)@,
        decreases v0.pending.len() - entries@.len() + relay@.lag,
    {
        let ghost before = relay@;
        match relay.recv() {
            RelayRecv::Item(chapter) => {
                let ghost k = entries@.len() as int;
                entries.push(make_entry(chapter));
                proof {
                    assert(before.pending[0] == v0.pending[k]);
                    assert(v0.pending.take(k).push(v0.pending[k]) =~= v0.pending.take(k + 1));
                    assert(v0.pending.take(k).map_values(|c: ChapterView| entry_of(c)).push(
                        entry_of(v0.pending[k])) =~= v0.pending.take(k + 1).map_values(
                        |c: ChapterView| entry_of(c)));
                    assert(before.pending.drop_first() =~= v0.pending.skip(k + 1));
                }
            },
            RelayRecv::Lagged(_) => {},
            RelayRecv::Closed => {
                proof {
                    assert(entries@.len() == v0.pending.len());
                    assert(v0.pending.take(v0.pending.len() as int) =~= v0.pending);
                    assert(relay@.pending =~= Seq::<ChapterView>::empty());
                    assert(relay@ =~= (RelayView {
                        pending: Seq::empty(),
                        lag: 0,
                        ..old(relay)@
                    }));
                }
                return entries;
            },
            RelayRecv::Empty => {
                proof {
                    assert(false);
                }
                return entries;
            },
        }
    }
}

} // verus!
