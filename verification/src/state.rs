//! The view state machine that sequences operator interaction.
//!
//! Exactly one view is active at a time; transitions are a total function of
//! the current state and the input event. Confirming a location starts a
//! fetch, identified by a generation number; at most one fetch is in flight,
//! and leaving the booking form cancels it. A fetch result is applied only
//! while the booking form is showing and only when its generation matches the
//! one in flight, so a stale result is always discarded.

use vstd::prelude::*;

use crate::bytes::subrange_vec;

verus! {

/// The active view.
#[derive(Debug, Clone, PartialEq, Eq)]
pub enum ViewState {
    LocationSelection,
    BookingForm { location: Vec<u8> },
    Confirmation { location: Vec<u8> },
}

/// Mathematical model of the active view.
#[verifier::ext_equal]
pub enum ViewStateModel {
    LocationSelection,
    BookingForm { location: Seq<u8> },
    Confirmation { location: Seq<u8> },
}

impl View for ViewState {
    type V = ViewStateModel;

    open spec fn view(&self) -> ViewStateModel {
        match self {
            ViewState::LocationSelection => ViewStateModel::LocationSelection,
            ViewState::BookingForm { location } => ViewStateModel::BookingForm {
                location: location@,
            },
            ViewState::Confirmation { location } => ViewStateModel::Confirmation {
                location: location@,
            },
        }
    }
}

/// One operator input, as the key decoder hands it in.
#[derive(Debug, Clone, Copy, PartialEq, Eq, Structural)]
pub enum InputEvent {
    Up,
    Down,
    Confirm,
    Cancel,
    Quit,
}

/// The fetch a confirmation asks for: which location, under which generation.
pub struct FetchCommand {
    pub generation: u64,
    pub location: Vec<u8>,
}

/// Mathematical model of a fetch command.
#[verifier::ext_equal]
pub struct FetchCommandModel {
    pub generation: u64,
    pub location: Seq<u8>,
}

impl View for FetchCommand {
    type V = FetchCommandModel;

    open spec fn view(&self) -> FetchCommandModel {
        FetchCommandModel { generation: self.generation, location: self.location@ }
    }
}

/// The interactive controller: list of locations, selection cursor, active
/// view, resolved space identifiers, and the fetch bookkeeping.
pub struct Controller {
    pub running: bool,
    pub counter: u64,
    pub locations: Vec<Vec<u8>>,
    pub selected: usize,
    pub view: ViewState,
    pub space_ids: Vec<Vec<u8>>,
    pub fetch_generation: u64,
    pub fetch_pending: bool,
    pub resolution_warning: bool,
}

/// Mathematical model of the controller.
#[verifier::ext_equal]
pub struct ControllerModel {
    pub running: bool,
    pub counter: u64,
    pub locations: Seq<Seq<u8>>,
    pub selected: usize,
    pub view: ViewStateModel,
    pub space_ids: Seq<Seq<u8>>,
    pub fetch_generation: u64,
    pub fetch_pending: bool,
    pub resolution_warning: bool,
}

impl View for Controller {
    type V = ControllerModel;

    open spec fn view(&self) -> ControllerModel {
        ControllerModel {
            running: self.running,
            counter: self.counter,
            locations: Seq::new(self.locations@.len(), |i: int| self.locations@[i]@),
            selected: self.selected,
            view: self.view@,
            space_ids: Seq::new(self.space_ids@.len(), |i: int| self.space_ids@[i]@),
            fetch_generation: self.fetch_generation,
            fetch_pending: self.fetch_pending,
            resolution_warning: self.resolution_warning,
        }
    }
}

/// Well-formedness: the cursor stays inside the location list.
pub open spec fn wf(m: ControllerModel) -> bool {
    if m.locations.len() == 0 {
        m.selected == 0
    } else {
        m.selected < m.locations.len()
    }
}

/// Cursor movement: up wraps from the first entry to the last.
pub open spec fn select_up(m: ControllerModel) -> usize {
    if m.locations.len() == 0 {
        0
    } else if m.selected == 0 {
        (m.locations.len() - 1) as usize
    } else {
        (m.selected - 1) as usize
    }
}

/// Cursor movement: down wraps from the last entry to the first.
pub open spec fn select_down(m: ControllerModel) -> usize {
    if m.locations.len() == 0 {
        0
    } else if m.selected + 1 >= m.locations.len() {
        0
    } else {
        (m.selected + 1) as usize
    }
}

/// The transition function: the controller after one input event.
pub open spec fn step(m: ControllerModel, e: InputEvent) -> ControllerModel {
    match e {
        InputEvent::Up => ControllerModel { selected: select_up(m), ..m },
        InputEvent::Down => ControllerModel { selected: select_down(m), ..m },
        InputEvent::Confirm => match m.view {
            ViewStateModel::LocationSelection => {
                if m.locations.len() == 0 {
                    m
                } else {
                    ControllerModel {
                        view: ViewStateModel::BookingForm { location: m.locations[m.selected as int] },
                        space_ids: Seq::empty(),
                        fetch_generation: (m.fetch_generation + 1) as u64,
                        fetch_pending: true,
                        resolution_warning: false,
                        ..m
                    }
                }
            },
            ViewStateModel::BookingForm { location } => ControllerModel {
                view: ViewStateModel::Confirmation { location },
                ..m
            },
            ViewStateModel::Confirmation { .. } => ControllerModel {
                view: ViewStateModel::LocationSelection,
                space_ids: Seq::empty(),
                fetch_pending: false,
                resolution_warning: false,
                ..m
            },
        },
        InputEvent::Cancel => match m.view {
            ViewStateModel::LocationSelection => ControllerModel { running: false, ..m },
            _ => ControllerModel {
                view: ViewStateModel::LocationSelection,
                space_ids: Seq::empty(),
                fetch_pending: false,
                resolution_warning: false,
                ..m
            },
        },
        InputEvent::Quit => ControllerModel { running: false, ..m },
    }
}

/// The fetch a transition starts: only confirming a selected location does.
pub open spec fn step_command(m: ControllerModel, e: InputEvent) -> Option<FetchCommandModel> {
    if e == InputEvent::Confirm && m.view is LocationSelection && m.locations.len() > 0 {
        Some(
            FetchCommandModel {
                generation: (m.fetch_generation + 1) as u64,
                location: m.locations[m.selected as int],
            },
        )
    } else {
        None
    }
}

/// The controller after a fetch result arrives: applied only when the booking
/// form is still showing and the generation matches the fetch in flight;
/// otherwise the result is stale and the controller is unchanged.
pub open spec fn apply_result_spec(
    m: ControllerModel,
    generation: u64,
    ids: Seq<Seq<u8>>,
) -> ControllerModel {
    if m.fetch_pending && generation == m.fetch_generation && m.view is BookingForm {
        ControllerModel { space_ids: ids, fetch_pending: false, resolution_warning: false, ..m }
    } else {
        m
    }
}

/// The controller after a fetch failure report: under the same guard as a
/// result, it clears the in-flight fetch, leaves the space set empty and
/// raises the warning; a stale report changes nothing.
pub open spec fn apply_failure_spec(m: ControllerModel, generation: u64) -> ControllerModel {
    if m.fetch_pending && generation == m.fetch_generation && m.view is BookingForm {
        ControllerModel {
            space_ids: Seq::empty(),
            fetch_pending: false,
            resolution_warning: true,
            ..m
        }
    } else {
        m
    }
}

impl Controller {
    /// A fresh controller showing the location list.
    pub fn new(locations: Vec<Vec<u8>>) -> (r: Controller)
        ensures
            r@.running == true,
            r@.counter == 0,
            r@.locations == Seq::new(locations@.len(), |i: int| locations@[i]@),
            r@.selected == 0,
            r@.view is LocationSelection,
            r@.space_ids == Seq::<Seq<u8>>::empty(),
            r@.fetch_generation == 0,
            r@.fetch_pending == false,
            r@.resolution_warning == false,
            wf(r@),
    {
        let r = Controller {
            running: true,
            counter: 0,
            locations,
            selected: 0,
            view: ViewState::LocationSelection,
            space_ids: Vec::new(),
            fetch_generation: 0,
            fetch_pending: false,
            resolution_warning: false,
        };
        assert(r@.space_ids =~= Seq::<Seq<u8>>::empty());
        r
    }

    /// Stops the interactive loop.
    pub fn quit(&mut self)
        ensures
            final(self)@ == (ControllerModel { running: false, ..old(self)@ }),
    {
        self.running = false;
        assert(self@ =~~= ControllerModel { running: false, ..old(self)@ });
    }

    /// Counts one step up, saturating.
    pub fn increment_counter(&mut self)
        ensures
            final(self)@ == (ControllerModel {
                counter: if old(self)@.counter == u64::MAX {
                    u64::MAX
                } else {
                    (old(self)@.counter + 1) as u64
                },
                ..old(self)@
            }),
    {
        self.counter = if self.counter == u64::MAX {
            u64::MAX
        } else {
            self.counter + 1
        };
        assert(self@ =~~= ControllerModel {
            counter: if old(self)@.counter == u64::MAX {
                u64::MAX
            } else {
                (old(self)@.counter + 1) as u64
            },
            ..old(self)@
        });
    }

    /// Counts one step down, saturating.
    pub fn decrement_counter(&mut self)
        ensures
            final(self)@ == (ControllerModel {
                counter: if old(self)@.counter == 0 {
                    0u64
                } else {
                    (old(self)@.counter - 1) as u64
                },
                ..old(self)@
            }),
    {
        self.counter = if self.counter == 0 {
            0
        } else {
            self.counter - 1
        };
        assert(self@ =~~= ControllerModel {
            counter: if old(self)@.counter == 0 {
                0u64
            } else {
                (old(self)@.counter - 1) as u64
            },
            ..old(self)@
        });
    }

    /// Feeds one input event through the transition function; hands back the
    /// fetch to start, when the event confirmed a location.
    pub fn handle_event(&mut self, e: InputEvent) -> (r: Option<FetchCommand>)
        requires
            wf(old(self)@),
            old(self)@.fetch_generation < u64::MAX,
        ensures
            final(self)@ == step(old(self)@, e),
            wf(final(self)@),
            match r {
                Some(c) => step_command(old(self)@, e) == Some(c@),
                None => step_command(old(self)@, e) is None,
            },
    {
        match e {
            InputEvent::Up => {
                self.selected = if self.locations.len() == 0 {
                    0
                } else if self.selected == 0 {
                    self.locations.len() - 1
                } else {
                    self.selected - 1
                };
                assert(self@ =~~= step(old(self)@, e));
                None
            },
            InputEvent::Down => {
                self.selected = if self.locations.len() == 0 {
                    0
                } else if self.selected + 1 >= self.locations.len() {
                    0
                } else {
                    self.selected + 1
                };
                assert(self@ =~~= step(old(self)@, e));
                None
            },
            InputEvent::Confirm => {
                match &self.view {
                    ViewState::LocationSelection => {
                        if self.locations.len() == 0 {
                            assert(self@ =~~= step(old(self)@, e));
                            return None;
                        }
                        let chosen = &self.locations[self.selected];
                        let location = subrange_vec(chosen.as_slice(), 0, chosen.len());
                        let location2 = subrange_vec(location.as_slice(), 0, location.len());
                        let generation = self.fetch_generation + 1;
                        self.view = ViewState::BookingForm { location };
                        self.space_ids = Vec::new();
                        self.fetch_generation = generation;
                        self.fetch_pending = true;
                        self.resolution_warning = false;
                        let cmd = FetchCommand { generation, location: location2 };
                        proof {
                            assert(cmd@.location =~= old(self)@.locations[old(self)@.selected as int]);
                            assert(self@ =~~= step(old(self)@, e));
                        }
                        Some(cmd)
                    },
                    ViewState::BookingForm { location } => {
                        let location = subrange_vec(location.as_slice(), 0, location.len());
                        self.view = ViewState::Confirmation { location };
                        assert(self@ =~~= step(old(self)@, e));
                        None
                    },
                    ViewState::Confirmation { .. } => {
                        self.view = ViewState::LocationSelection;
                        self.space_ids = Vec::new();
                        self.fetch_pending = false;
                        self.resolution_warning = false;
                        assert(self@ =~~= step(old(self)@, e));
                        None
                    },
                }
            },
            InputEvent::Cancel => {
                match &self.view {
                    ViewState::LocationSelection => {
                        self.running = false;
                        assert(self@ =~~= step(old(self)@, e));
                        None
                    },
                    _ => {
                        self.view = ViewState::LocationSelection;
                        self.space_ids = Vec::new();
                        self.fetch_pending = false;
                        self.resolution_warning = false;
                        assert(self@ =~~= step(old(self)@, e));
                        None
                    },
                }
            },
            InputEvent::Quit => {
                self.running = false;
                assert(self@ =~~= step(old(self)@, e));
                None
            },
        }
    }

    /// Applies a fetch result, as `apply_result_spec` says: only a matching,
    /// in-flight generation with the booking form still showing is applied;
    /// a stale result is discarded without any change.
    pub fn apply_fetch_result(&mut self, generation: u64, ids: Vec<Vec<u8>>)
        ensures
            final(self)@ == apply_result_spec(
                old(self)@,
                generation,
                Seq::new(ids@.len(), |i: int| ids@[i]@),
            ),
    {
        let ghost ids_model = Seq::new(ids@.len(), |i: int| ids@[i]@);
        let applies = self.fetch_pending && generation == self.fetch_generation && matches!(
            &self.view,
            ViewState::BookingForm { .. }
        );
        if applies {
            self.space_ids = ids;
            self.fetch_pending = false;
            self.resolution_warning = false;
            assert(self@ =~~= apply_result_spec(old(self)@, generation, ids_model));
        } else {
            assert(self@ =~~= apply_result_spec(old(self)@, generation, ids_model));
        }
    }

    /// Applies a fetch failure, as `apply_failure_spec` says.
    pub fn apply_fetch_failure(&mut self, generation: u64)
        ensures
            final(self)@ == apply_failure_spec(old(self)@, generation),
    {
        let applies = self.fetch_pending && generation == self.fetch_generation && matches!(
            &self.view,
            ViewState::BookingForm { .. }
        );
        if applies {
            self.space_ids = Vec::new();
            self.fetch_pending = false;
            self.resolution_warning = true;
            assert(self@ =~~= apply_failure_spec(old(self)@, generation));
        } else {
            assert(self@ =~~= apply_failure_spec(old(self)@, generation));
        }
    }
}

/// Every transition keeps the controller well formed.
pub proof fn lemma_step_preserves_wf(m: ControllerModel, e: InputEvent)
    requires
        wf(m),
    ensures
        wf(step(m, e)),
{
}

/// The single-in-flight guarantee: confirming a location, stepping back, and
/// confirming again cancels the first fetch and gives the second a different
/// generation, so the first fetch's result — whenever it arrives — is
/// discarded, and only the second fetch's result is ever applied.
pub proof fn lemma_second_confirmation_supersedes(
    m: ControllerModel,
    ids1: Seq<Seq<u8>>,
    ids2: Seq<Seq<u8>>,
)
    requires
        wf(m),
        m.view is LocationSelection,
        m.locations.len() > 0,
        m.fetch_generation + 2 <= u64::MAX,
    ensures
        ({
            let c1 = step_command(m, InputEvent::Confirm);
            let m1 = step(m, InputEvent::Confirm);
            let m2 = step(m1, InputEvent::Cancel);
            let c2 = step_command(m2, InputEvent::Confirm);
            let m3 = step(m2, InputEvent::Confirm);
            &&& c1 is Some
            &&& c2 is Some
            &&& m2.fetch_pending == false
            &&& c1->Some_0.generation != c2->Some_0.generation
            &&& apply_result_spec(m3, c1->Some_0.generation, ids1) == m3
            &&& apply_result_spec(m3, c2->Some_0.generation, ids2).space_ids == ids2
        }),
{
}

} // verus!
