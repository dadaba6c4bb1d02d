//! The decisions of one selection transfer from the X11 clipboard owner.
//!
//! A transfer asks the selection owner to convert the clipboard into a property of a window of
//! ours, waits for the owner's answer, reads the property, and, when the owner sends a large value
//! in pieces (the `INCR` protocol), reads every piece until an empty one ends the transfer. The
//! event loop performs the requests and hands each event and each property reply to a
//! [`Transfer`], which says what to do next.

use vstd::prelude::*;
use crate::property::PropertyReply;

verus! {

/// The atom value X11 uses for "no atom", as in a refused selection conversion.
pub const NONE_ATOM: u32 = 0;

/// The `state` of a property notification that announces a new value.
pub const PROPERTY_NEW_VALUE: u8 = 0;

/// What the event loop read from the connection while a transfer waits, reduced to what the
/// transfer looks at.
#[derive(Clone, Copy, PartialEq, Eq, Structural)]
pub enum TransferEvent {
    /// The selection owner's answer to a conversion request.
    SelectionNotify { requestor: u32, property: u32 },
    /// A change of a property of some window.
    PropertyNotify { window: u32, state: u8 },
    /// Any other event.
    Other,
}

/// Where a transfer stands.
#[derive(Clone, Copy, PartialEq, Eq, Structural)]
pub enum TransferPhase {
    /// Waiting for the owner's answer to the conversion request.
    AwaitingNotify,
    /// Waiting for the first read of the transfer property.
    AwaitingFirstReply,
    /// In an incremental transfer, waiting for the owner to store the next piece.
    AwaitingIncrement,
    /// In an incremental transfer, waiting for the read of the next piece.
    AwaitingChunk,
    /// The transfer has ended.
    Finished,
}

/// What the event loop does next.
pub enum TransferAction<R> {
    /// Put the event back on the queue of unhandled events, then wait for the next event.
    Requeue,
    /// Select property-change events on the transfer window, then read (and delete) the
    /// transfer property.
    ReadFirstProperty,
    /// Flush the connection, then wait for the next event.
    StartIncremental,
    /// Read (and delete) the transfer property.
    ReadNextChunk,
    /// Wait for the next event.
    AwaitNextChunk,
    /// The transfer has ended with this result: `None` when the owner refused it.
    Finish(Option<Vec<R>>),
}

/// The mathematical model of an action.
pub enum ActionModel<R> {
    Requeue,
    ReadFirstProperty,
    StartIncremental,
    ReadNextChunk,
    AwaitNextChunk,
    Finish(Option<Seq<R>>),
}

impl<R> View for TransferAction<R> {
    type V = ActionModel<R>;

    open spec fn view(&self) -> ActionModel<R> {
        match self {
            TransferAction::Requeue => ActionModel::Requeue,
            TransferAction::ReadFirstProperty => ActionModel::ReadFirstProperty,
            TransferAction::StartIncremental => ActionModel::StartIncremental,
            TransferAction::ReadNextChunk => ActionModel::ReadNextChunk,
            TransferAction::AwaitNextChunk => ActionModel::AwaitNextChunk,
            TransferAction::Finish(result) => ActionModel::Finish(
                match result {
                    Some(v) => Some(v@),
                    None => None,
                },
            ),
        }
    }
}

/// The mathematical model of a transfer.
pub struct TransferModel<R> {
    /// The window that receives the selection.
    pub window: u32,
    /// The atom `INCR`, whose type marks an incremental transfer.
    pub incr_atom: u32,
    pub phase: TransferPhase,
    /// What the pieces read so far make up.
    pub value: Seq<R>,
}

/// A transfer of the clipboard's contents into the property of `window`, collecting the value
/// as items of type `R`.
pub struct Transfer<R> {
    window: u32,
    incr_atom: u32,
    phase: TransferPhase,
    value: Vec<R>,
}

impl<R> View for Transfer<R> {
    type V = TransferModel<R>;

    closed spec fn view(&self) -> TransferModel<R> {
        TransferModel {
            window: self.window,
            incr_atom: self.incr_atom,
            phase: self.phase,
            value: self.value@,
        }
    }
}

/// The transfer waits for an event.
pub open spec fn awaits_event<R>(t: TransferModel<R>) -> bool {
    t.phase == TransferPhase::AwaitingNotify || t.phase == TransferPhase::AwaitingIncrement
}

/// The transfer waits for a property reply.
pub open spec fn awaits_reply<R>(t: TransferModel<R>) -> bool {
    t.phase == TransferPhase::AwaitingFirstReply || t.phase == TransferPhase::AwaitingChunk
}

/// The event is the owner's answer to this transfer's conversion request.
pub open spec fn answers_request<R>(t: TransferModel<R>, e: TransferEvent) -> bool {
    e matches TransferEvent::SelectionNotify { requestor, .. } && requestor == t.window
}

/// The event announces that the owner stored the next piece of an incremental transfer.
pub open spec fn announces_piece<R>(t: TransferModel<R>, e: TransferEvent) -> bool {
    e == (TransferEvent::PropertyNotify { window: t.window, state: PROPERTY_NEW_VALUE })
}

/// The model with another phase.
pub open spec fn with_phase<R>(t: TransferModel<R>, phase: TransferPhase) -> TransferModel<R> {
    TransferModel { phase, ..t }
}

/// What a transfer does with an event: the state it moves to and the action it asks for.
pub open spec fn on_event<R>(t: TransferModel<R>, e: TransferEvent) -> (TransferModel<R>, ActionModel<R>) {
    if t.phase == TransferPhase::AwaitingNotify && answers_request(t, e) {
        if e->property == NONE_ATOM {
            (with_phase(t, TransferPhase::Finished), ActionModel::Finish(None))
        } else {
            (with_phase(t, TransferPhase::AwaitingFirstReply), ActionModel::ReadFirstProperty)
        }
    } else if t.phase == TransferPhase::AwaitingIncrement && announces_piece(t, e) {
        (with_phase(t, TransferPhase::AwaitingChunk), ActionModel::ReadNextChunk)
    } else {
        (t, ActionModel::Requeue)
    }
}

/// A property reply of this type and emptiness is turned into items by the converter.
pub open spec fn converts_reply<R>(t: TransferModel<R>, reply_type: u32, reply_empty: bool) -> bool {
    ||| t.phase == TransferPhase::AwaitingFirstReply && reply_type != t.incr_atom
    ||| t.phase == TransferPhase::AwaitingChunk && !reply_empty
}

/// What a transfer does with a property reply of type `reply_type`, empty or not, whose value
/// the converter turned into `items` (when [`converts_reply`] holds; otherwise `items` plays no
/// part).
pub open spec fn on_reply<R>(
    t: TransferModel<R>,
    reply_type: u32,
    reply_empty: bool,
    items: Seq<R>,
) -> (TransferModel<R>, ActionModel<R>) {
    if t.phase == TransferPhase::AwaitingFirstReply {
        if reply_type != t.incr_atom {
            (
                TransferModel { phase: TransferPhase::Finished, value: Seq::empty(), ..t },
                ActionModel::Finish(Some(items)),
            )
        } else {
            (with_phase(t, TransferPhase::AwaitingIncrement), ActionModel::StartIncremental)
        }
    } else if t.phase == TransferPhase::AwaitingChunk {
        if reply_empty {
            (
                TransferModel { phase: TransferPhase::Finished, value: Seq::empty(), ..t },
                ActionModel::Finish(Some(t.value)),
            )
        } else {
            (
                TransferModel { phase: TransferPhase::AwaitingIncrement, value: t.value + items, ..t },
                ActionModel::AwaitNextChunk,
            )
        }
    } else {
        (t, ActionModel::Requeue)
    }
}

impl<R> Transfer<R> {
    /// A transfer into a property of `window` that has just asked the owner to convert the
    /// selection; `incr_atom` is the atom `INCR`.
    pub fn new(window: u32, incr_atom: u32) -> (t: Self)
        ensures
            t@ == (TransferModel::<R> {
                window,
                incr_atom,
                phase: TransferPhase::AwaitingNotify,
                value: Seq::empty(),
            }),
    {
        Transfer { window, incr_atom, phase: TransferPhase::AwaitingNotify, value: Vec::new() }
    }

    /// Where the transfer stands.
    pub fn phase(&self) -> (p: TransferPhase)
        ensures
            p == self@.phase,
    {
        self.phase
    }

    /// Handles an event read while the transfer waits for one.
    pub fn on_event(&mut self, event: TransferEvent) -> (action: TransferAction<R>)
        requires
            awaits_event(old(self)@),
        ensures
            (final(self)@, action@) == on_event(old(self)@, event),
    {
        match self.phase {
            TransferPhase::AwaitingNotify => {
                match event {
                    TransferEvent::SelectionNotify { requestor, property } => {
                        if requestor == self.window {
                            if property == NONE_ATOM {
                                self.phase = TransferPhase::Finished;
                                return TransferAction::Finish(None);
                            } else {
                                self.phase = TransferPhase::AwaitingFirstReply;
                                return TransferAction::ReadFirstProperty;
                            }
                        }
                        TransferAction::Requeue
                    },
                    _ => TransferAction::Requeue,
                }
            },
            _ => {
                match event {
                    TransferEvent::PropertyNotify { window, state } => {
                        if window == self.window && state == PROPERTY_NEW_VALUE {
                            self.phase = TransferPhase::AwaitingChunk;
                            return TransferAction::ReadNextChunk;
                        }
                        TransferAction::Requeue
                    },
                    _ => TransferAction::Requeue,
                }
            },
        }
    }

    /// Handles a property reply read while the transfer waits for one; `convert` turns the
    /// value of a reply into items.
    pub fn on_reply<F: Fn(PropertyReply) -> Vec<R>>(&mut self, reply: PropertyReply, convert: F) -> (action: TransferAction<R>)
        requires
            awaits_reply(old(self)@),
            forall|r: PropertyReply| call_requires(convert, (r,)),
        ensures
            converts_reply(old(self)@, reply.type_, reply.value@.len() == 0) ==> exists|items: Vec<R>|
                #[trigger] call_ensures(convert, (reply,), items)
                && (final(self)@, action@) == on_reply(old(self)@, reply.type_, reply.value@.len() == 0, items@),
            !converts_reply(old(self)@, reply.type_, reply.value@.len() == 0) ==>
                (final(self)@, action@) == on_reply(old(self)@, reply.type_, reply.value@.len() == 0, Seq::empty()),
    {
        let ghost reply_in = reply;
        if self.phase == TransferPhase::AwaitingFirstReply {
            if reply.type_ != self.incr_atom {
                let items = convert(reply);
                self.phase = TransferPhase::Finished;
                self.value = Vec::new();
                proof {
                    assert((self@, TransferAction::Finish(Some(items))@)
                        == on_reply(old(self)@, reply_in.type_, reply_in.value@.len() == 0, items@));
                }
                TransferAction::Finish(Some(items))
            } else {
                self.phase = TransferPhase::AwaitingIncrement;
                TransferAction::StartIncremental
            }
        } else if reply.value.len() == 0 {
            let mut value = Vec::new();
            std::mem::swap(&mut value, &mut self.value);
            self.phase = TransferPhase::Finished;
            TransferAction::Finish(Some(value))
        } else {
            let mut items = convert(reply);
            let ghost converted = items;
            self.value.append(&mut items);
            self.phase = TransferPhase::AwaitingIncrement;
            proof {
                assert((self@, TransferAction::<R>::AwaitNextChunk@)
                    == on_reply(old(self)@, reply_in.type_, reply_in.value@.len() == 0, converted@));
            }
            TransferAction::AwaitNextChunk
        }
    }
}

/// The items of all pieces, one after another.
pub open spec fn concat_pieces<R>(pieces: Seq<Seq<R>>) -> Seq<R>
    decreases pieces.len(),
{
    if pieces.len() == 0 {
        Seq::empty()
    } else {
        concat_pieces(pieces.drop_last()) + pieces.last()
    }
}

/// The notification that the owner stored the next piece of this transfer.
pub open spec fn piece_notification<R>(t: TransferModel<R>) -> TransferEvent {
    TransferEvent::PropertyNotify { window: t.window, state: PROPERTY_NEW_VALUE }
}

/// The state after the owner announced, and the transfer read, one more non-empty piece of
/// type `piece_type`, which the converter turned into `items`.
pub open spec fn after_piece<R>(t: TransferModel<R>, piece_type: u32, items: Seq<R>) -> TransferModel<R> {
    on_reply(on_event(t, piece_notification(t)).0, piece_type, false, items).0
}

/// The state after a run of non-empty pieces.
pub open spec fn after_pieces<R>(t: TransferModel<R>, piece_type: u32, pieces: Seq<Seq<R>>) -> TransferModel<R>
    decreases pieces.len(),
{
    if pieces.len() == 0 {
        t
    } else {
        after_piece(after_pieces(t, piece_type, pieces.drop_last()), piece_type, pieces.last())
    }
}

/// The state of a transfer that has just asked for the selection.
pub open spec fn started<R>(window: u32, incr_atom: u32) -> TransferModel<R> {
    TransferModel { window, incr_atom, phase: TransferPhase::AwaitingNotify, value: Seq::empty() }
}

/// An event that is not meant for the transfer is handed back to the queue and leaves the
/// transfer as it was.
pub proof fn lemma_foreign_event_requeued<R>(t: TransferModel<R>, e: TransferEvent)
    requires
        awaits_event(t),
        !answers_request(t, e),
        !announces_piece(t, e),
    ensures
        on_event(t, e) == (t, ActionModel::<R>::Requeue),
{
}

/// When the owner refuses the conversion (its answer names no property), the transfer ends
/// with no value.
pub proof fn lemma_refused_transfer_yields_nothing<R>(window: u32, incr_atom: u32)
    ensures
        ({
            let answer = TransferEvent::SelectionNotify { requestor: window, property: NONE_ATOM };
            on_event(started::<R>(window, incr_atom), answer).1 == ActionModel::<R>::Finish(None)
        }),
{
}

/// When the first read of the property does not have the type `INCR`, the transfer ends with
/// the converted value of that reply.
pub proof fn lemma_direct_transfer_yields_reply<R>(
    window: u32,
    incr_atom: u32,
    property: u32,
    reply_type: u32,
    reply_empty: bool,
    items: Seq<R>,
)
    requires
        property != NONE_ATOM,
        reply_type != incr_atom,
    ensures
        ({
            let answer = TransferEvent::SelectionNotify { requestor: window, property };
            let t1 = on_event(started::<R>(window, incr_atom), answer).0;
            on_reply(t1, reply_type, reply_empty, items).1 == ActionModel::Finish(Some(items))
        }),
{
}

/// While an incremental transfer waits for a piece, the owner's announcement of a new value on
/// the transfer window is always answered by reading that piece, however much has been collected;
/// the collected items are kept.
pub proof fn lemma_piece_announcement_is_read<R>(t: TransferModel<R>)
    requires
        t.phase == TransferPhase::AwaitingIncrement,
    ensures
        on_event(t, piece_notification(t)).1 == ActionModel::<R>::ReadNextChunk,
        on_event(t, piece_notification(t)).0.phase == TransferPhase::AwaitingChunk,
        on_event(t, piece_notification(t)).0.value == t.value,
{
}

/// A non-empty piece never ends an incremental transfer: its items are appended and the transfer
/// waits for the next one. Only an empty piece ends it, with everything collected.
pub proof fn lemma_only_empty_piece_ends<R>(t: TransferModel<R>, piece_type: u32, items: Seq<R>)
    requires
        t.phase == TransferPhase::AwaitingChunk,
    ensures
        on_reply(t, piece_type, false, items).1 == ActionModel::<R>::AwaitNextChunk,
        on_reply(t, piece_type, false, items).0.value == t.value + items,
        on_reply(t, piece_type, true, items).1 == ActionModel::Finish(Some(t.value)),
{
}

/// A run of non-empty pieces keeps the transfer waiting for the next piece, with the items of
/// the pieces appended in the order they came.
pub proof fn lemma_pieces_accumulate<R>(t: TransferModel<R>, piece_type: u32, pieces: Seq<Seq<R>>)
    requires
        t.phase == TransferPhase::AwaitingIncrement,
    ensures
        after_pieces(t, piece_type, pieces) == (TransferModel {
            value: t.value + concat_pieces(pieces),
            ..t
        }),
    decreases pieces.len(),
{
    if pieces.len() == 0 {
        assert(t.value + concat_pieces(pieces) =~= t.value);
    } else {
        lemma_pieces_accumulate(t, piece_type, pieces.drop_last());
        assert(t.value + concat_pieces(pieces.drop_last()) + pieces.last() =~= t.value + concat_pieces(pieces));
    }
}

/// An incremental transfer (the first read has the type `INCR`) ends, at the first empty piece,
/// with the items of all non-empty pieces before it, in the order they came.
pub proof fn lemma_incremental_transfer_concatenates<R>(
    window: u32,
    incr_atom: u32,
    property: u32,
    first_empty: bool,
    piece_type: u32,
    pieces: Seq<Seq<R>>,
    last_type: u32,
)
    requires
        property != NONE_ATOM,
    ensures
        ({
            let answer = TransferEvent::SelectionNotify { requestor: window, property };
            let t1 = on_event(started::<R>(window, incr_atom), answer).0;
            let t2 = on_reply(t1, incr_atom, first_empty, Seq::empty()).0;
            let t3 = after_pieces(t2, piece_type, pieces);
            let t4 = on_event(t3, piece_notification(t3)).0;
            on_reply(t4, last_type, true, Seq::empty()).1 == ActionModel::Finish(Some(concat_pieces(pieces)))
        }),
{
    let answer = TransferEvent::SelectionNotify { requestor: window, property };
    let t1 = on_event(started::<R>(window, incr_atom), answer).0;
    let t2 = on_reply(t1, incr_atom, first_empty, Seq::empty()).0;
    lemma_pieces_accumulate(t2, piece_type, pieces);
    assert(t2.value + concat_pieces(pieces) =~= concat_pieces(pieces));
}

} // verus!
