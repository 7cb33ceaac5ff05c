//! Connectors, the noodles that join them, and the drag protocol that makes
//! and breaks connections.

use crate::entity_map::{
    as_map, has_distinct_ids, lemma_entry_is_mapped, lemma_key_has_entry, EntityMap, Entry,
};
use vstd::prelude::*;

verus! {

/// The direction of a connector anchor: `Enter` is a sink, `Exit` a source.
#[derive(Clone, Copy, Debug, PartialEq, Eq, Structural)]
pub enum Connector {
    Enter,
    Exit,
}

/// One connection, finished or in the making. Each end is either bound to a
/// connector or hangs at a free point; at least one end is always bound.
#[derive(Clone, Copy, Debug, PartialEq)]
pub enum Noodle<P> {
    Connected { start_connector: u64, end_connector: u64 },
    HangingStart { start_position: P, end_connector: u64 },
    HangingEnd { start_connector: u64, end_position: P },
}

/// The mark on a connector that is the bound end of a drag in progress: the
/// noodle that the drag pulls.
#[derive(Clone, Copy, Debug, PartialEq, Eq, Structural)]
pub struct DraggedConnector {
    pub noodle: u64,
}

/// What the canvas knows of a connector: its direction and, while a drag
/// from it is in progress, the mark of that drag.
#[derive(Clone, Copy, Debug, PartialEq, Eq, Structural)]
pub struct ConnectorState {
    pub kind: Connector,
    pub dragged: Option<DraggedConnector>,
}

/// Why the canvas could not handle a drag event.
#[derive(Clone, Copy, Debug, PartialEq, Eq, Structural)]
pub enum DragError {
    /// The event names a connector that the canvas does not hold.
    UnknownConnector,
    /// The connector is not the bound end of a drag in progress.
    NotDragged,
    /// Every noodle identifier has been handed out.
    NoodlesExhausted,
}

/// How a drop onto a connector ended.
#[derive(Clone, Copy, Debug, PartialEq, Eq, Structural)]
pub enum DropOutcome {
    /// The noodle is now connected to the target.
    Connected,
    /// The target has the wrong direction for the noodle's free end.
    WrongSide,
    /// A connected noodle already joins the two connectors.
    AlreadyConnected,
}

/// The connector that the start of the noodle is bound to, if it is bound.
pub open spec fn start_of<P>(noodle: Noodle<P>) -> Option<u64> {
    match noodle {
        Noodle::Connected { start_connector, .. } => Some(start_connector),
        Noodle::HangingStart { .. } => None,
        Noodle::HangingEnd { start_connector, .. } => Some(start_connector),
    }
}

/// The connector that the end of the noodle is bound to, if it is bound.
pub open spec fn end_of<P>(noodle: Noodle<P>) -> Option<u64> {
    match noodle {
        Noodle::Connected { end_connector, .. } => Some(end_connector),
        Noodle::HangingStart { end_connector, .. } => Some(end_connector),
        Noodle::HangingEnd { .. } => None,
    }
}

/// One end of the noodle hangs free.
pub open spec fn is_hanging<P>(noodle: Noodle<P>) -> bool {
    !(noodle is Connected)
}

/// The connector that a hanging noodle is bound to.
pub open spec fn anchor_of<P>(noodle: Noodle<P>) -> u64 {
    match noodle {
        Noodle::Connected { start_connector, .. } => start_connector,
        Noodle::HangingStart { end_connector, .. } => end_connector,
        Noodle::HangingEnd { start_connector, .. } => start_connector,
    }
}

/// The noodle hangs, bound to `connector` at its other end.
pub open spec fn hangs_from<P>(noodle: Noodle<P>, connector: u64) -> bool {
    is_hanging(noodle) && anchor_of(noodle) == connector
}

/// The noodle is connected and its two ends are `a` and `b`, in either order.
pub open spec fn joins<P>(noodle: Noodle<P>, a: u64, b: u64) -> bool {
    match noodle {
        Noodle::Connected { start_connector, end_connector } => (start_connector == a
            && end_connector == b) || (start_connector == b && end_connector == a),
        _ => false,
    }
}

/// Some connected noodle joins `a` and `b`.
pub open spec fn are_joined<P>(noodles: Map<u64, Noodle<P>>, a: u64, b: u64) -> bool {
    exists|n: u64| #[trigger] noodles.contains_key(n) && joins(noodles[n], a, b)
}

/// Two connected noodles join the same pair of connectors.
pub open spec fn is_parallel_to<P>(first: Noodle<P>, second: Noodle<P>) -> bool {
    first matches Noodle::Connected { start_connector, end_connector } && joins(
        second,
        start_connector,
        end_connector,
    )
}

/// A connector of direction `kind` may take the end of the noodle that
/// `connector` is bound to: starts are bound to `Exit`, ends to `Enter`.
pub open spec fn agrees<P>(kind: Connector, connector: u64, noodle: Noodle<P>) -> bool {
    &&& start_of(noodle) == Some(connector) ==> kind == Connector::Exit
    &&& end_of(noodle) == Some(connector) ==> kind == Connector::Enter
}

/// The free end of a hanging noodle may land on a connector of direction
/// `target`: a free end lands on `Enter`, a free start on `Exit`.
pub open spec fn fits<P>(noodle: Noodle<P>, target: Connector) -> bool {
    match noodle {
        Noodle::Connected { .. } => false,
        Noodle::HangingStart { .. } => target == Connector::Exit,
        Noodle::HangingEnd { .. } => target == Connector::Enter,
    }
}

/// The noodle that a drag from `connector` begins with: bound to the
/// connector, its other end hanging at the cursor.
pub open spec fn hung<P>(kind: Connector, connector: u64, cursor: P) -> Noodle<P> {
    match kind {
        Connector::Enter => Noodle::HangingStart {
            start_position: cursor,
            end_connector: connector,
        },
        Connector::Exit => Noodle::HangingEnd {
            start_connector: connector,
            end_position: cursor,
        },
    }
}

/// The noodle with its free end at the cursor, or as it is when the cursor is
/// outside the window.
pub open spec fn moved<P>(noodle: Noodle<P>, cursor: Option<P>) -> Noodle<P> {
    match (noodle, cursor) {
        (Noodle::HangingStart { end_connector, .. }, Some(position)) => Noodle::HangingStart {
            start_position: position,
            end_connector,
        },
        (Noodle::HangingEnd { start_connector, .. }, Some(position)) => Noodle::HangingEnd {
            start_connector,
            end_position: position,
        },
        _ => noodle,
    }
}

/// The noodle with its free end bound to `target`.
pub open spec fn connected<P>(noodle: Noodle<P>, target: u64) -> Noodle<P> {
    match noodle {
        Noodle::HangingStart { end_connector, .. } => Noodle::Connected {
            start_connector: target,
            end_connector,
        },
        Noodle::HangingEnd { start_connector, .. } => Noodle::Connected {
            start_connector,
            end_connector: target,
        },
        Noodle::Connected { .. } => noodle,
    }
}

/// The noodles once the drag that `marker` stands for is given up.
pub open spec fn released<P>(noodles: Map<u64, Noodle<P>>, marker: Option<DraggedConnector>) -> Map<
    u64,
    Noodle<P>,
> {
    match marker {
        Some(dragged) => noodles.remove(dragged.noodle),
        None => noodles,
    }
}

/// Every mark refers to a noodle that hangs from the marked connector.
pub open spec fn marks_hold<P>(
    connectors: Map<u64, ConnectorState>,
    noodles: Map<u64, Noodle<P>>,
) -> bool {
    forall|c: u64| #[trigger]
        connectors.contains_key(c) ==> (connectors[c].dragged matches Some(dragged)
            ==> noodles.contains_key(dragged.noodle) && hangs_from(noodles[dragged.noodle], c))
}

/// Every hanging noodle is the noodle of the mark on the connector that it hangs from.
pub open spec fn hanging_are_marked<P>(
    connectors: Map<u64, ConnectorState>,
    noodles: Map<u64, Noodle<P>>,
) -> bool {
    forall|n: u64| #[trigger]
        noodles.contains_key(n) && is_hanging(noodles[n]) ==> connectors.contains_key(
            anchor_of(noodles[n]),
        ) && connectors[anchor_of(noodles[n])].dragged == Some(DraggedConnector { noodle: n })
}

/// Every bound start is an `Exit` and every bound end an `Enter`, as far as
/// the connectors are on the canvas.
pub open spec fn directions_hold<P>(
    connectors: Map<u64, ConnectorState>,
    noodles: Map<u64, Noodle<P>>,
) -> bool {
    forall|c: u64, n: u64|
        #[trigger] connectors.contains_key(c) && #[trigger] noodles.contains_key(n) ==> agrees(
            connectors[c].kind,
            c,
            noodles[n],
        )
}

/// No two connected noodles join the same pair of connectors.
pub open spec fn no_parallel_connections<P>(noodles: Map<u64, Noodle<P>>) -> bool {
    forall|m: u64, n: u64|
        #[trigger] noodles.contains_key(m) && #[trigger] noodles.contains_key(n) && m != n
            ==> !is_parallel_to(noodles[m], noodles[n])
}

/// No noodle binds `connector` at an end that a connector of direction `kind` cannot take.
pub open spec fn may_join<P>(
    noodles: Map<u64, Noodle<P>>,
    connector: u64,
    kind: Connector,
) -> bool {
    forall|n: u64| #[trigger] noodles.contains_key(n) ==> agrees(kind, connector, noodles[n])
}

/// The connectors of the canvas and the noodles between them.
#[derive(Debug)]
pub struct Canvas<P> {
    connectors: EntityMap<ConnectorState>,
    noodles: EntityMap<Noodle<P>>,
    next_noodle: u64,
}

impl<P: Copy> Canvas<P> {
    /// The connectors on the canvas, by identifier.
    pub closed spec fn connectors(&self) -> Map<u64, ConnectorState> {
        self.connectors.map()
    }

    /// The noodles on the canvas, by identifier.
    pub closed spec fn noodles(&self) -> Map<u64, Noodle<P>> {
        self.noodles.map()
    }

    /// The noodles with their identifiers, in the order in which they are listed.
    pub closed spec fn noodle_entries(&self) -> Seq<Entry<Noodle<P>>> {
        self.noodles.entries()
    }

    /// The identifier that the next noodle gets. Identifiers are handed out
    /// in ascending order; once this reaches `u64::MAX` no further noodle can
    /// be made.
    pub closed spec fn next_noodle(&self) -> u64 {
        self.next_noodle
    }

    /// The storage is in order: no identifier is stored twice.
    pub closed spec fn is_stored_well(&self) -> bool {
        self.connectors.wf() && self.noodles.wf()
    }

    /// The canvas is consistent: marks and hanging noodles refer to each
    /// other, every bound end has the direction of its connector, and no two
    /// connected noodles join the same pair of connectors.
    pub open spec fn wf(&self) -> bool {
        &&& self.is_stored_well()
        &&& forall|n: u64| #[trigger] self.noodles().contains_key(n) ==> n < self.next_noodle()
        &&& marks_hold(self.connectors(), self.noodles())
        &&& hanging_are_marked(self.connectors(), self.noodles())
        &&& directions_hold(self.connectors(), self.noodles())
        &&& no_parallel_connections(self.noodles())
    }

    /// A canvas without connectors and noodles.
    pub fn new() -> (canvas: Canvas<P>)
        ensures
            canvas.wf(),
            canvas.connectors() == Map::<u64, ConnectorState>::empty(),
            canvas.noodles() == Map::<u64, Noodle<P>>::empty(),
            canvas.next_noodle() == 0,
    {
        Canvas::numbered_from(0)
    }

    /// A canvas without connectors and noodles whose first noodle gets the
    /// identifier `first`.
    pub fn numbered_from(first: u64) -> (canvas: Canvas<P>)
        ensures
            canvas.wf(),
            canvas.connectors() == Map::<u64, ConnectorState>::empty(),
            canvas.noodles() == Map::<u64, Noodle<P>>::empty(),
            canvas.next_noodle() == first,
    {
        Canvas { connectors: EntityMap::new(), noodles: EntityMap::new(), next_noodle: first }
    }

    /// What the canvas knows of the connector `id`, if it holds it.
    pub fn connector(&self, id: u64) -> (found: Option<ConnectorState>)
        requires
            self.wf(),
        ensures
            found == if self.connectors().contains_key(id) {
                Some(self.connectors()[id])
            } else {
                None
            },
    {
        match self.connectors.get(id) {
            Some(state) => Some(*state),
            None => None,
        }
    }

    /// The noodle `id`, if the canvas holds it.
    pub fn noodle(&self, id: u64) -> (found: Option<Noodle<P>>)
        requires
            self.wf(),
        ensures
            found == if self.noodles().contains_key(id) {
                Some(self.noodles()[id])
            } else {
                None
            },
    {
        match self.noodles.get(id) {
            Some(noodle) => Some(*noodle),
            None => None,
        }
    }

    /// The number of noodles on the canvas.
    pub fn noodle_count(&self) -> (count: usize)
        ensures
            count == self.noodle_entries().len(),
    {
        self.noodles.len()
    }

    /// The noodle at position `i` of the list, with its identifier.
    pub fn noodle_entry(&self, i: usize) -> (entry: Entry<Noodle<P>>)
        requires
            i < self.noodle_entries().len(),
        ensures
            entry == self.noodle_entries()[i as int],
    {
        *self.noodles.entry(i)
    }

    /// The list of noodles holds each noodle of the canvas exactly once.
    pub proof fn lemma_entries_list_the_noodles(self)
        requires
            self.wf(),
        ensures
            has_distinct_ids(self.noodle_entries()),
            as_map(self.noodle_entries()) == self.noodles(),
    {
    }

    /// At most one connected noodle joins any pair of connectors, whichever
    /// way round the two are named.
    pub proof fn lemma_one_connection_per_pair(self, first: u64, second: u64, a: u64, b: u64)
        requires
            self.wf(),
            self.noodles().contains_key(first),
            self.noodles().contains_key(second),
            joins(self.noodles()[first], a, b),
            joins(self.noodles()[second], a, b),
        ensures
            first == second,
    {
    }

    /// A connected noodle runs from an `Exit` to an `Enter`: no connection
    /// binds a start to an `Enter` connector or an end to an `Exit` connector
    /// of the canvas.
    pub proof fn lemma_connections_run_from_exit_to_enter(self, noodle: u64)
        requires
            self.wf(),
            self.noodles().contains_key(noodle),
            self.noodles()[noodle] is Connected,
        ensures
            self.connectors().contains_key(self.noodles()[noodle]->Connected_start_connector)
                ==> self.connectors()[self.noodles()[noodle]->Connected_start_connector].kind
                == Connector::Exit,
            self.connectors().contains_key(self.noodles()[noodle]->Connected_end_connector)
                ==> self.connectors()[self.noodles()[noodle]->Connected_end_connector].kind
                == Connector::Enter,
    {
    }

    /// While a noodle hangs, a drag is in progress from the connector that it
    /// is bound to, and that connector is marked with the noodle.
    pub proof fn lemma_hanging_noodles_are_dragged(self, noodle: u64)
        requires
            self.wf(),
            self.noodles().contains_key(noodle),
            is_hanging(self.noodles()[noodle]),
        ensures
            carries_drag(self.connectors(), anchor_of(self.noodles()[noodle])),
            self.connectors()[anchor_of(self.noodles()[noodle])].dragged == Some(
                (DraggedConnector { noodle }),
            ),
    {
    }

    /// Whether no noodle binds `connector` at an end that a connector of
    /// direction `kind` cannot take.
    fn may_join(&self, connector: u64, kind: Connector) -> (free: bool)
        requires
            self.wf(),
        ensures
            free == may_join(self.noodles(), connector, kind),
    {
        let mut i: usize = 0;
        while i < self.noodles.len()
            invariant
                i <= self.noodles.entries().len(),
                self.noodles.wf(),
                forall|k: int|
                    0 <= k < i ==> agrees(
                        kind,
                        connector,
                        (#[trigger] self.noodles.entries()[k]).value,
                    ),
            decreases self.noodles.entries().len() - i,
        {
            let noodle = self.noodles.entry(i).value;
            proof {
                lemma_entry_is_mapped(self.noodles.entries(), i as int);
            }
            let contradicts = match noodle {
                Noodle::Connected { start_connector, end_connector } => (start_connector
                    == connector && kind == Connector::Enter) || (end_connector == connector
                    && kind == Connector::Exit),
                Noodle::HangingStart { end_connector, .. } => end_connector == connector && kind
                    == Connector::Exit,
                Noodle::HangingEnd { start_connector, .. } => start_connector == connector && kind
                    == Connector::Enter,
            };
            if contradicts {
                return false;
            }
            i += 1;
        }
        proof {
            assert forall|n: u64| #[trigger] self.noodles().contains_key(n) implies agrees(
                kind,
                connector,
                self.noodles()[n],
            ) by {
                lemma_key_has_entry(self.noodles.entries(), n);
            }
        }
        true
    }

    /// Puts a connector on the canvas. It is refused, and nothing changes,
    /// when the canvas holds a connector of that identifier already or when a
    /// noodle binds the identifier at an end that the direction cannot take.
    pub fn add_connector(&mut self, id: u64, kind: Connector) -> (added: bool)
        requires
            old(self).wf(),
        ensures
            final(self).wf(),
            added == (!old(self).connectors().contains_key(id) && may_join(
                old(self).noodles(),
                id,
                kind,
            )),
            final(self).noodles() == old(self).noodles(),
            final(self).noodle_entries() == old(self).noodle_entries(),
            final(self).next_noodle() == old(self).next_noodle(),
            final(self).connectors() == if added {
                old(self).connectors().insert(id, (ConnectorState { kind, dragged: None }))
            } else {
                old(self).connectors()
            },
    {
        if self.connectors.contains(id) || !self.may_join(id, kind) {
            return false;
        }
        self.connectors.insert(id, ConnectorState { kind, dragged: None });
        true
    }

    /// Takes a connector off the canvas. A drag in progress from it is given
    /// up: its noodle goes with it. Connected noodles stay, bound to an
    /// identifier that the canvas no longer holds.
    pub fn remove_connector(&mut self, id: u64) -> (removed: bool)
        requires
            old(self).wf(),
        ensures
            final(self).wf(),
            removed == old(self).connectors().contains_key(id),
            final(self).next_noodle() == old(self).next_noodle(),
            final(self).connectors() == old(self).connectors().remove(id),
            final(self).noodles() == if removed {
                released(old(self).noodles(), old(self).connectors()[id].dragged)
            } else {
                old(self).noodles()
            },
    {
        match self.connectors.remove(id) {
            None => false,
            Some(state) => {
                if let Some(dragged) = state.dragged {
                    let _ = self.noodles.remove(dragged.noodle);
                }
                true
            },
        }
    }

    /// Begins a drag on a connector: a new noodle is bound to the connector
    /// with its other end hanging at the cursor, and the connector is marked
    /// with it. A drag that was still in progress from the connector is given
    /// up first. Returns the identifier of the new noodle.
    pub fn start_dragging_connector(&mut self, connector: u64, cursor: P) -> (outcome: Result<
        u64,
        DragError,
    >)
        requires
            old(self).wf(),
        ensures
            final(self).wf(),
            (match outcome {
                Ok(noodle) => {
                    let state = old(self).connectors()[connector];
                    &&& old(self).connectors().contains_key(connector)
                    &&& noodle == old(self).next_noodle() < u64::MAX
                    &&& final(self).next_noodle() == noodle + 1
                    &&& final(self).connectors() == old(self).connectors().insert(
                        connector,
                        (ConnectorState {
                            kind: state.kind,
                            dragged: Some(DraggedConnector { noodle }),
                        }),
                    )
                    &&& final(self).noodles() == released(
                        old(self).noodles(),
                        state.dragged,
                    ).insert(noodle, hung(state.kind, connector, cursor))
                },
                Err(error) => {
                    &&& final(self).connectors() == old(self).connectors()
                    &&& final(self).noodles() == old(self).noodles()
                    &&& final(self).next_noodle() == old(self).next_noodle()
                    &&& error == (if !old(self).connectors().contains_key(connector) {
                        DragError::UnknownConnector
                    } else {
                        DragError::NoodlesExhausted
                    })
                    &&& old(self).connectors().contains_key(connector) ==> old(
                        self,
                    ).next_noodle() == u64::MAX
                },
            }),
    {
        let state = match self.connectors.get(connector) {
            Some(state) => *state,
            None => {
                return Err(DragError::UnknownConnector);
            },
        };
        if self.next_noodle == u64::MAX {
            return Err(DragError::NoodlesExhausted);
        }
        if let Some(dragged) = state.dragged {
            let _ = self.noodles.remove(dragged.noodle);
        }
        let noodle = self.next_noodle;
        self.next_noodle = noodle + 1;
        let hanging = match state.kind {
            Connector::Enter => Noodle::HangingStart {
                start_position: cursor,
                end_connector: connector,
            },
            Connector::Exit => Noodle::HangingEnd {
                start_connector: connector,
                end_position: cursor,
            },
        };
        self.noodles.insert(noodle, hanging);
        self.connectors.insert(
            connector,
            ConnectorState { kind: state.kind, dragged: Some(DraggedConnector { noodle }) },
        );
        Ok(noodle)
    }

    /// Follows the cursor during a drag: the free end of the noodle that the
    /// connector drags moves to the cursor, the bound end stays. Without a
    /// cursor position the noodle stays as it is.
    pub fn be_dragging_connector(&mut self, connector: u64, cursor: Option<P>) -> (outcome: Result<
        (),
        DragError,
    >)
        requires
            old(self).wf(),
        ensures
            final(self).wf(),
            final(self).connectors() == old(self).connectors(),
            final(self).next_noodle() == old(self).next_noodle(),
            (match outcome {
                Ok(_) => {
                    &&& old(self).connectors().contains_key(connector)
                    &&& old(self).connectors()[connector].dragged matches Some(dragged)
                    &&& final(self).noodles() == old(self).noodles().insert(
                        dragged.noodle,
                        moved(old(self).noodles()[dragged.noodle], cursor),
                    )
                },
                Err(error) => {
                    &&& final(self).noodles() == old(self).noodles()
                    &&& error == (if old(self).connectors().contains_key(connector) {
                        DragError::NotDragged
                    } else {
                        DragError::UnknownConnector
                    })
                    &&& old(self).connectors().contains_key(connector) ==> old(
                        self,
                    ).connectors()[connector].dragged is None
                },
            }),
    {
        let state = match self.connectors.get(connector) {
            Some(state) => *state,
            None => {
                return Err(DragError::UnknownConnector);
            },
        };
        let dragged = match state.dragged {
            Some(dragged) => dragged,
            None => {
                return Err(DragError::NotDragged);
            },
        };
        let noodle = match self.noodles.get(dragged.noodle) {
            Some(noodle) => *noodle,
            None => {
                return Err(DragError::NotDragged);
            },
        };
        let next = match (noodle, cursor) {
            (Noodle::HangingStart { end_connector, .. }, Some(position)) => Noodle::HangingStart {
                start_position: position,
                end_connector,
            },
            (Noodle::HangingEnd { start_connector, .. }, Some(position)) => Noodle::HangingEnd {
                start_connector,
                end_position: position,
            },
            _ => noodle,
        };
        self.noodles.insert(dragged.noodle, next);
        Ok(())
    }

    /// Whether some connected noodle joins `a` and `b`.
    pub fn are_joined(&self, a: u64, b: u64) -> (joined: bool)
        requires
            self.wf(),
        ensures
            joined == are_joined(self.noodles(), a, b),
    {
        let mut i: usize = 0;
        while i < self.noodles.len()
            invariant
                i <= self.noodles.entries().len(),
                self.noodles.wf(),
                forall|k: int|
                    0 <= k < i ==> !joins((#[trigger] self.noodles.entries()[k]).value, a, b),
            decreases self.noodles.entries().len() - i,
        {
            let noodle = self.noodles.entry(i).value;
            proof {
                lemma_entry_is_mapped(self.noodles.entries(), i as int);
            }
            if let Noodle::Connected { start_connector, end_connector } = noodle {
                if (start_connector == a && end_connector == b) || (start_connector == b
                    && end_connector == a) {
                    return true;
                }
            }
            i += 1;
        }
        proof {
            assert forall|n: u64| #[trigger] self.noodles().contains_key(n) implies !joins(
                self.noodles()[n],
                a,
                b,
            ) by {
                lemma_key_has_entry(self.noodles.entries(), n);
            }
        }
        false
    }

    /// Handles the drop of the noodle that `dropped` drags onto the connector
    /// `target`. A target of the wrong direction and a pair that is already
    /// joined are turned down and leave everything as it is, the noodle still
    /// hanging. Otherwise the free end is bound to the target and the mark
    /// leaves `dropped`.
    pub fn drag_and_drop_connector(&mut self, dropped: u64, target: u64) -> (outcome: Result<
        DropOutcome,
        DragError,
    >)
        requires
            old(self).wf(),
        ensures
            final(self).wf(),
            final(self).next_noodle() == old(self).next_noodle(),
            (match outcome {
                Err(error) => {
                    &&& final(self).connectors() == old(self).connectors()
                    &&& final(self).noodles() == old(self).noodles()
                    &&& error == (if !old(self).connectors().contains_key(target) {
                        DragError::UnknownConnector
                    } else {
                        DragError::NotDragged
                    })
                    &&& old(self).connectors().contains_key(target) ==> !carries_drag(
                        old(self).connectors(),
                        dropped,
                    )
                },
                Ok(ending) => {
                    let from = old(self).connectors()[dropped];
                    let noodle = old(self).noodles()[from.dragged->0.noodle];
                    &&& old(self).connectors().contains_key(target)
                    &&& carries_drag(old(self).connectors(), dropped)
                    &&& ending == drop_ending(
                        old(self).noodles(),
                        noodle,
                        dropped,
                        target,
                        old(self).connectors()[target].kind,
                    )
                    &&& if ending == DropOutcome::Connected {
                        &&& final(self).noodles() == old(self).noodles().insert(
                            from.dragged->0.noodle,
                            connected(noodle, target),
                        )
                        &&& final(self).connectors() == old(self).connectors().insert(
                            dropped,
                            (ConnectorState { kind: from.kind, dragged: None }),
                        )
                    } else {
                        &&& final(self).noodles() == old(self).noodles()
                        &&& final(self).connectors() == old(self).connectors()
                    }
                },
            }),
    {
        let target_kind = match self.connectors.get(target) {
            Some(state) => state.kind,
            None => {
                return Err(DragError::UnknownConnector);
            },
        };
        let from = match self.connectors.get(dropped) {
            Some(state) => *state,
            None => {
                return Err(DragError::NotDragged);
            },
        };
        let dragged = match from.dragged {
            Some(dragged) => dragged,
            None => {
                return Err(DragError::NotDragged);
            },
        };
        let noodle = match self.noodles.get(dragged.noodle) {
            Some(noodle) => *noodle,
            None => {
                return Err(DragError::NotDragged);
            },
        };
        let joined = match noodle {
            Noodle::HangingStart { end_connector, .. } => {
                if target_kind == Connector::Enter {
                    return Ok(DropOutcome::WrongSide);
                }
                Noodle::Connected { start_connector: target, end_connector }
            },
            Noodle::HangingEnd { start_connector, .. } => {
                if target_kind == Connector::Exit {
                    return Ok(DropOutcome::WrongSide);
                }
                Noodle::Connected { start_connector, end_connector: target }
            },
            Noodle::Connected { .. } => {
                return Ok(DropOutcome::WrongSide);
            },
        };
        if self.are_joined(dropped, target) {
            return Ok(DropOutcome::AlreadyConnected);
        }
        self.noodles.insert(dragged.noodle, joined);
        self.connectors.insert(dropped, ConnectorState { kind: from.kind, dragged: None });
        Ok(DropOutcome::Connected)
    }

    /// Ends a drag on a connector. If the connector still carries the mark of
    /// the drag, no drop bound the noodle: the noodle is destroyed, the mark
    /// is cleared, and the noodle's identifier is returned. If the mark is
    /// gone, or the connector itself, nothing happens.
    pub fn stop_dragging_connector(&mut self, connector: u64) -> (destroyed: Option<u64>)
        requires
            old(self).wf(),
        ensures
            final(self).wf(),
            final(self).next_noodle() == old(self).next_noodle(),
            (match destroyed {
                Some(noodle) => {
                    &&& carries_drag(old(self).connectors(), connector)
                    &&& old(self).connectors()[connector].dragged == Some(
                        (DraggedConnector { noodle }),
                    )
                    &&& final(self).noodles() == old(self).noodles().remove(noodle)
                    &&& final(self).connectors() == old(self).connectors().insert(
                        connector,
                        (ConnectorState {
                            kind: old(self).connectors()[connector].kind,
                            dragged: None,
                        }),
                    )
                },
                None => {
                    &&& !carries_drag(old(self).connectors(), connector)
                    &&& final(self).noodles() == old(self).noodles()
                    &&& final(self).connectors() == old(self).connectors()
                },
            }),
    {
        let state = match self.connectors.get(connector) {
            Some(state) => *state,
            None => {
                return None;
            },
        };
        match state.dragged {
            None => None,
            Some(dragged) => {
                let _ = self.noodles.remove(dragged.noodle);
                self.connectors.insert(
                    connector,
                    ConnectorState { kind: state.kind, dragged: None },
                );
                Some(dragged.noodle)
            },
        }
    }
}

/// The connector is on the canvas and carries the mark of a drag.
pub open spec fn carries_drag(connectors: Map<u64, ConnectorState>, connector: u64) -> bool {
    connectors.contains_key(connector) && connectors[connector].dragged is Some
}

/// How the drop of `noodle`, dragged by `dropped`, onto `target` ends: a
/// target of the wrong direction is turned down first, then a pair that is
/// already joined; any other drop connects.
pub open spec fn drop_ending<P>(
    noodles: Map<u64, Noodle<P>>,
    noodle: Noodle<P>,
    dropped: u64,
    target: u64,
    target_kind: Connector,
) -> DropOutcome {
    if !fits(noodle, target_kind) {
        DropOutcome::WrongSide
    } else if are_joined(noodles, dropped, target) {
        DropOutcome::AlreadyConnected
    } else {
        DropOutcome::Connected
    }
}

} // verus!
