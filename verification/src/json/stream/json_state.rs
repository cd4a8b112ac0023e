//! The reduced emitter: the nesting stack, fields and list separators.
//!
//! It shares its model (`JsonView`) and its node kinds with the full
//! emitter of `json::rendering`, and behaves as that one does on the
//! operations it offers.
use vstd::prelude::*;
use crate::json::rendering::json_state as full;
use crate::json::rendering::json_state::{JsonStateStruct, JsonView, initial_view, struct_depth};
use crate::json::rendering::laws::{Event, lemma_separators_keep_nodes, run};

pub use crate::json::rendering::json_state::JsonStateEnum;

verus! {

/// JsonState checks the nesting of structures, arrays and fields and
/// places the separators between elements.
pub struct JsonState {
    /// The emitter that does the work.
    inner: full::JsonState,
}

impl View for JsonState {
    type V = JsonView;

    closed spec fn view(&self) -> JsonView {
        self.inner@
    }
}

impl JsonState {
    /// Well-formedness of the emitter (see `JsonView::wf`).
    pub open spec fn wf(&self) -> bool {
        self@.wf()
    }

    /// Constructor of the JsonState class. It setup the state as Root and
    /// init indent to 0.
    /// @param indent If true, indent the output json code with tabulations,
    /// else produce compact json code.
    /// @param lua Produce a Lua table instead of JSON.
    pub fn new(indent: bool, lua: bool) -> (state: JsonState)
        ensures
            state.wf(),
            state@ == initial_view(indent, lua),
    {
        JsonState { inner: full::JsonState::new(indent, lua) }
    }

    /// The text produced so far.
    pub fn output(&self) -> (text: &str)
        ensures
            text@ == self@.out,
    {
        self.inner.output()
    }

    /// @return Return the current state for checking.
    pub fn get_state(&self) -> (state: JsonStateEnum)
        requires
            self.wf(),
        ensures
            state == self@.top_state(),
    {
        self.inner.get_state()
    }

    /// Internal function to start a new field.
    #[allow(dead_code)]
    fn open_field(&mut self, name: String)
        requires
            old(self).wf(),
            old(self)@.accepts_field(),
        ensures
            final(self).wf(),
            final(self)@ == old(self)@.after_open_field(name@),
    {
        self.inner.open_field(name.as_str());
    }

    /// Internal function to close the current field.
    /// @param name Name of the field to close (for checking).
    #[allow(dead_code)]
    fn close_field(&mut self, name: String)
        requires
            old(self).wf(),
            old(self)@.top_state() == JsonStateEnum::Field,
            old(self)@.node_name() == name@,
        ensures
            final(self).wf(),
            final(self)@ == old(self)@.after_close_field(),
    {
        self.inner.close_field(name.as_str());
    }

    /// Tells if we generate a LUA output instead of JSON.
    pub fn is_lua(&self) -> (lua: bool)
        ensures
            lua == self@.lua,
    {
        self.inner.is_lua()
    }

    /// Display a list separator.
    pub fn print_list_separator(&mut self)
        requires
            old(self).wf(),
            old(self)@.accepts_value(),
        ensures
            final(self).wf(),
            final(self)@ == old(self)@.after_list_separator(),
    {
        self.inner.print_list_separator();
    }
}

/// The reduced emitter stays at its root: whatever number of list
/// separators it writes after it is made, its only node is the root, so
/// `get_state` gives `Root`.
pub proof fn lemma_stream_stays_at_root(use_indent: bool, lua: bool, events: Seq<Event>)
    requires
        forall|i: int| 0 <= i < events.len() ==> #[trigger] events[i] == Event::ListSeparator,
    ensures
        run(initial_view(use_indent, lua), events).wf(),
        run(initial_view(use_indent, lua), events).frames.len() == 1,
        run(initial_view(use_indent, lua), events).top_state() == JsonStateEnum::Root,
{
    let v = initial_view(use_indent, lua);
    assert(struct_depth(v.frames) == 0) by {
        reveal_with_fuel(struct_depth, 2);
        assert(v.frames.drop_last() =~= Seq::<JsonStateStruct>::empty());
    }
    lemma_separators_keep_nodes(v, events);
}

} // verus!
