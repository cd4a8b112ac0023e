//! The emitter that turns a tree of values into JSON (or Lua table) text.
//!
//! `JsonState` keeps a stack of the nodes it is currently inside (the root,
//! structures, arrays and fields) so that every opening is checked against
//! the node it happens in and every closing against the node it ends. The
//! text it produces is kept in an in-memory buffer; whoever owns the state
//! hands that text to its final destination.
use vstd::prelude::*;
use crate::text::{tabs, int_text, push_char, int_to_text};

verus! {

/// Define the current state for open/close checking.
#[derive(PartialEq, Eq, Structural, Clone, Copy, Debug)]
pub enum JsonStateEnum {
    /// Currently on the root element.
    Root,
    /// Currently inside structure, expect struct end or fields.
    Struct,
    /// Currently inside array, expect array end or fields.
    Array,
    /// Currently in state field, expect value, struct or array.
    Field,
}

/// One level of the nesting stack.
#[derive(Clone, Copy)]
pub struct JsonStateStruct {
    /// Kind of node.
    pub state: JsonStateEnum,
    /// Nothing has been written inside this node yet (no separator needed).
    pub is_first: bool,
}

/// Whether a node of kind `child` may be opened directly inside a node of
/// kind `parent`.
pub open spec fn may_nest(parent: JsonStateEnum, child: JsonStateEnum) -> bool {
    match child {
        JsonStateEnum::Root => false,
        JsonStateEnum::Field => parent == JsonStateEnum::Root || parent == JsonStateEnum::Struct,
        _ => parent == JsonStateEnum::Root || parent == JsonStateEnum::Field || parent
            == JsonStateEnum::Array,
    }
}

/// Number of structure levels in a stack of nodes.
pub open spec fn struct_depth(frames: Seq<JsonStateStruct>) -> int
    decreases frames.len(),
{
    if frames.len() == 0 {
        0
    } else {
        struct_depth(frames.drop_last()) + if frames.last().state == JsonStateEnum::Struct {
            1int
        } else {
            0int
        }
    }
}

/// Every node of the stack is allowed inside the one below it.
pub open spec fn well_nested(frames: Seq<JsonStateStruct>) -> bool {
    forall|i: int, j: int|
        #![trigger frames[i], frames[j]]
        0 <= i && j == i + 1 && j < frames.len() ==> may_nest(frames[i].state, frames[j].state)
}

/// `"` + `s` + `"`.
pub open spec fn quoted(s: Seq<char>) -> Seq<char> {
    seq!['"'] + s + seq!['"']
}

/// Text put between two fields of a structure.
pub open spec fn field_separator(use_indent: bool) -> Seq<char> {
    if use_indent {
        seq![',', '\n']
    } else {
        seq![',']
    }
}

/// Text that introduces a field named `name`.
pub open spec fn field_name_text(name: Seq<char>, lua: bool) -> Seq<char> {
    if lua {
        name + seq!['=']
    } else {
        seq!['"'] + name + seq!['"', ':']
    }
}

/// Text put between two values of an array.
pub open spec fn list_separator() -> Seq<char> {
    seq![',', ' ']
}

/// Text that opens an array.
pub open spec fn open_array_text(lua: bool) -> Seq<char> {
    if lua {
        seq!['{']
    } else {
        seq!['[']
    }
}

/// Text that closes an array.
pub open spec fn close_array_text(lua: bool) -> Seq<char> {
    if lua {
        seq!['}']
    } else {
        seq![']']
    }
}

/// Text that opens a structure.
pub open spec fn open_struct_text(use_indent: bool) -> Seq<char> {
    if use_indent {
        seq!['{', '\n']
    } else {
        seq!['{']
    }
}

/// Text that closes a structure.
pub open spec fn close_struct_text(use_indent: bool) -> Seq<char> {
    if use_indent {
        seq!['}', '\n']
    } else {
        seq!['}']
    }
}

/// Mathematical model of a `JsonState`: the stack of nodes, the indentation
/// level, the two options and the text written so far.
pub struct JsonView {
    /// Nodes we are inside, the root first.
    pub frames: Seq<JsonStateStruct>,
    /// Name of each of these nodes (that of a field, empty for the others).
    pub names: Seq<Seq<char>>,
    /// Indentation level.
    pub indent: int,
    /// Indentation is enabled.
    pub use_indent: bool,
    /// Lua output instead of JSON.
    pub lua: bool,
    /// Text written so far.
    pub out: Seq<char>,
}

/// The state of a new emitter.
pub open spec fn initial_view(use_indent: bool, lua: bool) -> JsonView {
    JsonView {
        frames: seq![JsonStateStruct { state: JsonStateEnum::Root, is_first: true }],
        names: seq![Seq::empty()],
        indent: 0,
        use_indent,
        lua,
        out: Seq::empty(),
    }
}

impl JsonView {
    /// Kind of the innermost node.
    pub open spec fn top_state(self) -> JsonStateEnum {
        self.frames.last().state
    }

    /// Nothing written yet inside the innermost node.
    pub open spec fn is_first(self) -> bool {
        self.frames.last().is_first
    }

    /// Well-formedness: the root is at the bottom and only there, every node
    /// is allowed inside its parent, and the indentation level is the number
    /// of open structures.
    pub open spec fn wf(self) -> bool {
        &&& self.frames.len() >= 1
        &&& self.frames[0].state == JsonStateEnum::Root
        &&& well_nested(self.frames)
        &&& self.names.len() == self.frames.len()
        &&& self.indent == struct_depth(self.frames)
        &&& self.indent <= i16::MAX
    }

    /// The innermost node can take a value (root, field or array).
    pub open spec fn accepts_value(self) -> bool {
        self.top_state() == JsonStateEnum::Root || self.top_state() == JsonStateEnum::Field
            || self.top_state() == JsonStateEnum::Array
    }

    /// The innermost node can take a field (root or structure).
    pub open spec fn accepts_field(self) -> bool {
        self.top_state() == JsonStateEnum::Root || self.top_state() == JsonStateEnum::Struct
    }

    /// Name of the innermost node (that of the field being written).
    pub open spec fn node_name(self) -> Seq<char> {
        self.names.last()
    }

    /// Name of the parent of the innermost node.
    pub open spec fn parent_name(self) -> Seq<char> {
        self.names[self.names.len() - 2]
    }

    /// The innermost node is of kind `inner` and its parent of kind `outer`.
    pub open spec fn in_nodes(self, outer: JsonStateEnum, inner: JsonStateEnum) -> bool {
        &&& self.frames.len() >= 2
        &&& self.top_state() == inner
        &&& self.frames[self.frames.len() - 2].state == outer
    }

    /// `s` appended to the output.
    pub open spec fn write(self, s: Seq<char>) -> JsonView {
        JsonView { out: self.out + s, ..self }
    }

    /// A new node of kind `state`, named `name`, entered.
    pub open spec fn pushed_named(self, state: JsonStateEnum, name: Seq<char>) -> JsonView {
        JsonView {
            frames: self.frames.push(JsonStateStruct { state, is_first: true }),
            names: self.names.push(name),
            ..self
        }
    }

    /// A new node of kind `state`, without a name, entered.
    pub open spec fn pushed(self, state: JsonStateEnum) -> JsonView {
        self.pushed_named(state, Seq::empty())
    }

    /// The innermost node left.
    pub open spec fn popped(self) -> JsonView {
        JsonView { frames: self.frames.drop_last(), names: self.names.drop_last(), ..self }
    }

    /// The innermost node marked as holding something.
    pub open spec fn first_done(self) -> JsonView {
        JsonView {
            frames: self.frames.update(
                self.frames.len() - 1,
                JsonStateStruct { state: self.top_state(), is_first: false },
            ),
            ..self
        }
    }

    /// Indentation for the current level (tabulations when enabled).
    pub open spec fn padding(self) -> Seq<char> {
        if self.use_indent {
            tabs(self.indent as nat)
        } else {
            Seq::empty()
        }
    }

    /// The indentation appended to the output.
    pub open spec fn padded(self) -> JsonView {
        self.write(self.padding())
    }

    /// After opening a field named `name`.
    pub open spec fn after_open_field(self, name: Seq<char>) -> JsonView {
        let sep = if self.is_first() {
            Seq::empty()
        } else {
            field_separator(self.use_indent)
        };
        self.write(sep).pushed_named(JsonStateEnum::Field, name).padded().write(
            field_name_text(name, self.lua),
        )
    }

    /// After closing a field.
    pub open spec fn after_close_field(self) -> JsonView {
        self.popped().first_done()
    }

    /// After a list separator.
    pub open spec fn after_list_separator(self) -> JsonView {
        let v = if self.top_state() == JsonStateEnum::Array && !self.is_first() {
            self.write(list_separator())
        } else {
            self
        };
        v.first_done()
    }

    /// After opening an array.
    pub open spec fn after_open_array(self) -> JsonView {
        self.pushed(JsonStateEnum::Array).write(open_array_text(self.lua))
    }

    /// After closing an array.
    pub open spec fn after_close_array(self) -> JsonView {
        self.popped().write(close_array_text(self.lua))
    }

    /// After opening a structure.
    pub open spec fn after_open_struct(self) -> JsonView {
        JsonView { indent: self.indent + 1, ..self.pushed(JsonStateEnum::Struct) }.write(
            open_struct_text(self.use_indent),
        )
    }

    /// After closing a structure.
    pub open spec fn after_close_struct(self) -> JsonView {
        let v1 = JsonView { indent: self.indent - 1, ..self };
        let v2 = if !self.is_first() && self.use_indent {
            v1.write(seq!['\n']).padded()
        } else {
            v1
        };
        v2.popped().write(close_struct_text(self.use_indent)).padded()
    }

    /// After a value, preceded by a list separator when `separator` is set
    /// and the value is not the first of an array.
    pub open spec fn after_value<T: JsonFieldValue + ?Sized>(
        self,
        value: &T,
        separator: bool,
    ) -> JsonView {
        let v = self.value_position(separator);
        v.write(value.json_text(v)).first_done()
    }

    /// Where a value's own text starts: after the list separator when
    /// `separator` is set and the value is not the first of an array.
    pub open spec fn value_position(self, separator: bool) -> JsonView {
        if separator && self.top_state() == JsonStateEnum::Array && !self.is_first() {
            self.write(list_separator())
        } else {
            self
        }
    }

    /// After a field named `name` holding `value`.
    pub open spec fn after_field<T: JsonFieldValue + ?Sized>(
        self,
        name: Seq<char>,
        value: &T,
    ) -> JsonView {
        let v = self.after_open_field(name);
        v.write(value.json_text(v)).after_close_field()
    }

    /// After the values of `values`, one after the other, each with a
    /// separator.
    pub open spec fn after_values<T: JsonFieldValue>(self, values: Seq<T>) -> JsonView
        decreases values.len(),
    {
        if values.len() == 0 {
            self
        } else {
            self.after_values(values.drop_last()).after_value(&values.last(), true)
        }
    }

    /// After an array holding `values`.
    pub open spec fn after_array<T: JsonFieldValue>(self, values: Seq<T>) -> JsonView {
        self.after_open_array().after_values(values).after_close_array()
    }

    /// After a field named `name` holding an array of `values`.
    pub open spec fn after_field_array<T: JsonFieldValue>(
        self,
        name: Seq<char>,
        values: Seq<T>,
    ) -> JsonView {
        self.after_open_field(name).after_array(values).after_close_field()
    }
}

/// Trait to say that the type can be placed in a JSON stream.
pub trait JsonFieldValue {
    /// The text that `convert_to_json` appends when the emitter is in the
    /// state `at`.
    spec fn json_text(&self, at: JsonView) -> Seq<char>;

    /// Whether the value can be written when the innermost node is of kind
    /// `node`.
    spec fn accepted_in(&self, node: JsonStateEnum) -> bool;

    /// Convert the given type to streamed json format: append exactly one
    /// value and leave the nesting as it was. A value that writes a
    /// structure checks `get_indent()` before opening it.
    fn convert_to_json(&self, state: &mut JsonState)
        requires
            old(state).wf(),
            self.accepted_in(old(state)@.top_state()),
        ensures
            final(state).wf(),
            final(state)@ == old(state)@.write(self.json_text(old(state)@)),
    ;
}

/// JsonState is the central class to convert a structure into json text format.
/// It ensure the storage of current conversion status to open/close arrays,
/// structures and to register entries.
pub struct JsonState {
    /// Indentation level.
    indent: i16,
    /// Stack of status to now in wich type of node we are.
    state_stack: Vec<JsonStateStruct>,
    /// Enable or disable indentation.
    use_indent: bool,
    /// Generate LUA instead of json.
    lua: bool,
    /// Text produced so far.
    out: String,
    /// Name of each node of the stack (that of a field, empty for the others).
    names: Ghost<Seq<Seq<char>>>,
}

impl View for JsonState {
    type V = JsonView;

    closed spec fn view(&self) -> JsonView {
        JsonView {
            frames: self.state_stack@,
            names: self.names@,
            indent: self.indent as int,
            use_indent: self.use_indent,
            lua: self.lua,
            out: self.out@,
        }
    }
}

/// Adding a node to a stack adds one structure level exactly when the
/// node is a structure.
proof fn lemma_struct_depth_push(frames: Seq<JsonStateStruct>, f: JsonStateStruct)
    ensures
        struct_depth(frames.push(f)) == struct_depth(frames) + if f.state
            == JsonStateEnum::Struct {
            1int
        } else {
            0int
        },
{
    assert(frames.push(f).drop_last() =~= frames);
}

/// Changing the mark of the innermost node keeps the structure depth.
proof fn lemma_struct_depth_mark(frames: Seq<JsonStateStruct>, f: JsonStateStruct)
    requires
        frames.len() >= 1,
        f.state == frames.last().state,
    ensures
        struct_depth(frames.update(frames.len() - 1, f)) == struct_depth(frames),
{
    assert(frames.update(frames.len() - 1, f).drop_last() =~= frames.drop_last());
}

/// Structure depth is never negative.
proof fn lemma_struct_depth_nonneg(frames: Seq<JsonStateStruct>)
    ensures
        struct_depth(frames) >= 0,
    decreases frames.len(),
{
    if frames.len() > 0 {
        lemma_struct_depth_nonneg(frames.drop_last());
    }
}

/// A stack whose nodes have the kinds of the lower part of a well nested
/// stack is well nested.
proof fn lemma_nested_same_states(frames: Seq<JsonStateStruct>, other: Seq<JsonStateStruct>)
    requires
        well_nested(frames),
        other.len() <= frames.len(),
        forall|i: int| 0 <= i < other.len() ==> (#[trigger] other[i]).state == frames[i].state,
    ensures
        well_nested(other),
{
    assert forall|i: int, j: int|
        #![trigger other[i], other[j]]
        0 <= i && j == i + 1 && j < other.len() implies may_nest(
        other[i].state,
        other[j].state,
    ) by {
        assert(frames[i].state == other[i].state && frames[j].state == other[j].state);
    }
}

/// Entering a node allowed inside the innermost one keeps the stack well
/// nested.
proof fn lemma_nested_push(frames: Seq<JsonStateStruct>, f: JsonStateStruct)
    requires
        well_nested(frames),
        frames.len() >= 1,
        may_nest(frames.last().state, f.state),
    ensures
        well_nested(frames.push(f)),
{
    let w = frames.push(f);
    assert forall|i: int, j: int|
        #![trigger w[i], w[j]]
        0 <= i && j == i + 1 && j < w.len() implies may_nest(w[i].state, w[j].state) by {
        assert(w[i] == frames[i]);
        if j < frames.len() {
            assert(w[j] == frames[j]);
        }
    }
}

/// Entering a node allowed where we are keeps the state well formed.
pub proof fn lemma_pushed_wf(v: JsonView, state: JsonStateEnum, name: Seq<char>)
    requires
        v.wf(),
        may_nest(v.top_state(), state),
        state != JsonStateEnum::Struct,
    ensures
        v.pushed_named(state, name).wf(),
{
    let f = JsonStateStruct { state, is_first: true };
    lemma_struct_depth_push(v.frames, f);
    lemma_nested_push(v.frames, f);
}

/// Entering a structure where one is allowed, one level deeper, keeps the
/// state well formed.
proof fn lemma_pushed_struct_wf(v: JsonView)
    requires
        v.wf(),
        may_nest(v.top_state(), JsonStateEnum::Struct),
        v.indent < i16::MAX,
    ensures
        (JsonView { indent: v.indent + 1, ..v.pushed(JsonStateEnum::Struct) }).wf(),
{
    let f = JsonStateStruct { state: JsonStateEnum::Struct, is_first: true };
    lemma_struct_depth_push(v.frames, f);
    lemma_nested_push(v.frames, f);
}

/// Leaving a node other than the root and a structure keeps the state well
/// formed.
pub proof fn lemma_popped_wf(v: JsonView)
    requires
        v.wf(),
        v.top_state() != JsonStateEnum::Root,
        v.top_state() != JsonStateEnum::Struct,
    ensures
        v.popped().wf(),
        v.frames.len() >= 2,
{
    lemma_nested_same_states(v.frames, v.frames.drop_last());
}

/// Leaving a structure, one level up, keeps the state well formed.
pub proof fn lemma_popped_struct_wf(v: JsonView)
    requires
        v.wf(),
        v.top_state() == JsonStateEnum::Struct,
    ensures
        (JsonView { indent: v.indent - 1, ..v }).popped().wf(),
        v.frames.len() >= 2,
        v.indent >= 1,
{
    lemma_struct_depth_nonneg(v.frames.drop_last());
    lemma_nested_same_states(v.frames, v.frames.drop_last());
}

/// Marking the innermost node keeps the state well formed.
pub proof fn lemma_first_done_wf(v: JsonView)
    requires
        v.wf(),
    ensures
        v.first_done().wf(),
        v.first_done().top_state() == v.top_state(),
        v.first_done().frames.len() == v.frames.len(),
{
    let w = v.first_done();
    lemma_struct_depth_mark(
        v.frames,
        JsonStateStruct { state: v.top_state(), is_first: false },
    );
    lemma_nested_same_states(v.frames, w.frames);
}

/// A prefix of a prefix is a prefix.
proof fn lemma_prefix_trans(a: Seq<char>, b: Seq<char>, c: Seq<char>)
    requires
        a.is_prefix_of(b),
        b.is_prefix_of(c),
    ensures
        a.is_prefix_of(c),
{
    assert(a =~= c.subrange(0, a.len() as int));
}

impl JsonState {
    /// Well-formedness of the emitter (see `JsonView::wf`).
    pub open spec fn wf(&self) -> bool {
        self@.wf()
    }

    /// Constructor of the JsonState class. It setup the state as Root and
    /// init indent to 0.
    /// @param indent If true, indent the output json code with tabulations,
    /// else produce compact json code.
    /// @param lua Produce a Lua table instead of JSON.
    pub fn new(indent: bool, lua: bool) -> (state: JsonState)
        ensures
            state.wf(),
            state@ == initial_view(indent, lua),
    {
        let mut state = JsonState {
            indent: 0,
            state_stack: Vec::new(),
            use_indent: indent,
            lua: lua,
            out: String::new(),
            names: Ghost(Seq::empty()),
        };
        state.push_state(JsonStateEnum::Root);
        proof {
            assert(state.state_stack@ =~= seq![
                JsonStateStruct { state: JsonStateEnum::Root, is_first: true },
            ]);
            assert(state.names@ =~= seq![Seq::<char>::empty()]);
            assert(struct_depth(state.state_stack@) == 0) by {
                reveal_with_fuel(struct_depth, 2);
                assert(state.state_stack@.drop_last() =~= Seq::<JsonStateStruct>::empty());
            }
        }
        state
    }

    /// The text produced so far.
    pub fn output(&self) -> (text: &str)
        ensures
            text@ == self@.out,
    {
        self.out.as_str()
    }

    /// Gives up the emitter and returns the text it produced.
    pub fn into_output(self) -> (text: String)
        ensures
            text@ == self@.out,
    {
        self.out
    }

    /// @return Return the current state for checking.
    pub fn get_state(&self) -> (state: JsonStateEnum)
        requires
            self.wf(),
        ensures
            state == self@.top_state(),
    {
        self.state_stack[self.state_stack.len() - 1].state
    }

    /// Push the new state into the stack.
    fn push_state(&mut self, state: JsonStateEnum)
        ensures
            final(self)@ == old(self)@.pushed(state),
    {
        self.push_named_state(state, Ghost(Seq::empty()));
    }

    /// Push the new state, a node named `name`, into the stack.
    fn push_named_state(&mut self, state: JsonStateEnum, name: Ghost<Seq<char>>)
        ensures
            final(self)@ == old(self)@.pushed_named(state, name@),
    {
        let tmp = JsonStateStruct { state: state, is_first: true };
        self.state_stack.push(tmp);
        self.names = Ghost(self.names@.push(name@));
    }

    /// Mark the innermost node as holding something, so that the next
    /// element gets a separator.
    fn first_is_done(&mut self)
        requires
            old(self)@.frames.len() >= 1,
        ensures
            final(self)@ == old(self)@.first_done(),
    {
        let n = self.state_stack.len();
        let top = self.state_stack[n - 1];
        self.state_stack.set(n - 1, JsonStateStruct { state: top.state, is_first: false });
    }

    /// Check if a first element was provided in case of arrays or structure.
    fn is_first(&self) -> (first: bool)
        requires
            self@.frames.len() >= 1,
        ensures
            first == self@.is_first(),
    {
        self.state_stack[self.state_stack.len() - 1].is_first
    }

    /// Pop the current state from the stack.
    /// @param state State to remove (only for checking).
    fn pop_state(&mut self, state: JsonStateEnum)
        requires
            old(self)@.frames.len() >= 1,
            old(self)@.top_state() == state,
        ensures
            final(self)@ == old(self)@.popped(),
    {
        self.state_stack.pop();
        self.names = Ghost(self.names@.drop_last());
    }

    /// Append `s` to the output.
    fn write_str(&mut self, s: &str)
        ensures
            final(self)@ == old(self)@.write(s@),
    {
        self.out.append(s);
    }

    /// Append `c` to the output.
    fn write_char(&mut self, c: char)
        ensures
            final(self)@ == old(self)@.write(seq![c]),
    {
        push_char(&mut self.out, c);
        assert(self.out@ =~= old(self).out@ + seq![c]);
    }

    /// Internal function to close the current field.
    /// @param name Name of the field to close (for checking).
    pub(crate) fn close_field(&mut self, name: &str)
        requires
            old(self).wf(),
            old(self)@.top_state() == JsonStateEnum::Field,
            old(self)@.node_name() == name@,
        ensures
            final(self).wf(),
            final(self)@ == old(self)@.after_close_field(),
    {
        proof {
            lemma_popped_wf(old(self)@);
            lemma_first_done_wf(old(self)@.popped());
        }
        self.pop_state(JsonStateEnum::Field);
        self.first_is_done();
    }

    /// Internal function to start a new field.
    pub(crate) fn open_field(&mut self, name: &str)
        requires
            old(self).wf(),
            old(self)@.accepts_field(),
        ensures
            final(self).wf(),
            final(self)@ == old(self)@.after_open_field(name@),
    {
        proof {
            lemma_struct_depth_nonneg(old(self)@.frames);
        }
        let ghost sep = if old(self)@.is_first() {
            Seq::empty()
        } else {
            field_separator(old(self)@.use_indent)
        };
        if !self.is_first() {
            if self.use_indent {
                self.write_char(',');
                self.write_char('\n');
                assert(old(self)@.out + seq![','] + seq!['\n'] =~= old(self)@.out
                    + field_separator(true));
            } else {
                self.write_char(',');
            }
        } else {
            assert(old(self)@.out + sep =~= old(self)@.out);
        }
        assert(self@ =~= old(self)@.write(sep));
        proof {
            lemma_pushed_wf(self@, JsonStateEnum::Field, name@);
        }
        self.push_named_state(JsonStateEnum::Field, Ghost(name@));
        self.put_padding();
        let ghost v = self@;
        if self.lua {
            self.write_str(name);
            self.write_char('=');
            assert(v.out + name@ + seq!['='] =~= v.out + field_name_text(name@, true));
        } else {
            self.write_char('"');
            self.write_str(name);
            self.write_char('"');
            self.write_char(':');
            assert(v.out + seq!['"'] + name@ + seq!['"'] + seq![':'] =~= v.out
                + field_name_text(name@, false));
        }
        assert(self@ =~= v.write(field_name_text(name@, old(self)@.lua)));
    }

    /// Write padding characters into output stream. It will use the local indent
    /// parameter and use tabulations.
    fn put_padding(&mut self)
        requires
            old(self)@.indent >= 0,
        ensures
            final(self)@ == old(self)@.padded(),
    {
        if self.use_indent {
            let mut i: i16 = 0;
            while i < self.indent
                invariant
                    0 <= i <= self.indent,
                    self.use_indent,
                    self@ =~= old(self)@.write(tabs(i as nat)),
                decreases self.indent - i,
            {
                self.write_char('\t');
                assert(old(self)@.out + tabs(i as nat) + seq!['\t'] =~= old(self)@.out + tabs(
                    (i + 1) as nat,
                ));
                i = i + 1;
            }
        } else {
            assert(old(self)@.out + Seq::<char>::empty() =~= old(self)@.out);
        }
        assert(self@.out =~= old(self)@.padded().out);
    }

    /// Tells if we generate a LUA output instead of JSON.
    pub fn is_lua(&self) -> (lua: bool)
        ensures
            lua == self@.lua,
    {
        self.lua
    }

    /// Current indentation level: the number of open structures. A value
    /// that writes a structure of its own can open it only below
    /// `i16::MAX`.
    pub fn get_indent(&self) -> (level: i16)
        ensures
            level == self@.indent,
    {
        self.indent
    }
}

impl JsonState {
    /// Display a list separator.
    pub fn print_list_separator(&mut self)
        requires
            old(self).wf(),
            old(self)@.accepts_value(),
        ensures
            final(self).wf(),
            final(self)@ == old(self)@.after_list_separator(),
            old(self)@.out.is_prefix_of(final(self)@.out),
    {
        if self.get_state() == JsonStateEnum::Array && !self.is_first() {
            self.write_char(',');
            self.write_char(' ');
            assert(old(self)@.out + seq![','] + seq![' '] =~= old(self)@.out + list_separator());
        }
        proof {
            lemma_first_done_wf(self@);
        }
        self.first_is_done();
        assert(self@ =~= old(self)@.after_list_separator());
    }

    /// Start a new array, mostly to be used internally or for the root element.
    pub fn open_array(&mut self)
        requires
            old(self).wf(),
            old(self)@.accepts_value(),
        ensures
            final(self).wf(),
            final(self)@ == old(self)@.after_open_array(),
            old(self)@.out.is_prefix_of(final(self)@.out),
    {
        proof {
            lemma_pushed_wf(old(self)@, JsonStateEnum::Array, Seq::empty());
        }
        self.push_state(JsonStateEnum::Array);
        if self.lua {
            self.write_char('{');
        } else {
            self.write_char('[');
        }
        assert(self@ =~= old(self)@.after_open_array());
    }

    /// Close the current array. Mostly to be used internally or for the root element.
    pub fn close_array(&mut self)
        requires
            old(self).wf(),
            old(self)@.top_state() == JsonStateEnum::Array,
        ensures
            final(self).wf(),
            final(self)@ == old(self)@.after_close_array(),
            old(self)@.out.is_prefix_of(final(self)@.out),
    {
        proof {
            lemma_popped_wf(old(self)@);
        }
        self.pop_state(JsonStateEnum::Array);
        if self.lua {
            self.write_char('}');
        } else {
            self.write_char(']');
        }
        assert(self@ =~= old(self)@.after_close_array());
    }

    /// Start a new structure. To be used internally, for root elements or for values inside arrays.
    pub fn open_struct(&mut self)
        requires
            old(self).wf(),
            old(self)@.accepts_value(),
            old(self)@.indent < i16::MAX,
        ensures
            final(self).wf(),
            final(self)@ == old(self)@.after_open_struct(),
            old(self)@.out.is_prefix_of(final(self)@.out),
    {
        proof {
            lemma_pushed_struct_wf(old(self)@);
        }
        self.push_state(JsonStateEnum::Struct);
        self.indent = self.indent + 1;
        if self.use_indent {
            self.write_char('{');
            self.write_char('\n');
            assert(old(self)@.out + seq!['{'] + seq!['\n'] =~= old(self)@.out + open_struct_text(
                true,
            ));
        } else {
            self.write_char('{');
        }
        assert(self@ =~= old(self)@.after_open_struct());
    }

    /// Close the current structure. To be used internally, for root elements or for values inside arrays.
    pub fn close_struct(&mut self)
        requires
            old(self).wf(),
            old(self)@.top_state() == JsonStateEnum::Struct,
        ensures
            final(self).wf(),
            final(self)@ == old(self)@.after_close_struct(),
            old(self)@.out.is_prefix_of(final(self)@.out),
    {
        proof {
            lemma_popped_struct_wf(old(self)@);
        }
        self.indent = self.indent - 1;
        let ghost v1 = self@;
        assert(v1 =~= (JsonView { indent: old(self)@.indent - 1, ..old(self)@ }));
        if !self.is_first() && self.use_indent {
            self.write_char('\n');
            self.put_padding();
        }
        let ghost v2 = self@;
        assert(v2.frames == v1.frames && v2.indent == v1.indent);
        self.pop_state(JsonStateEnum::Struct);
        if self.use_indent {
            self.write_char('}');
            self.write_char('\n');
            assert(v2.popped().out + seq!['}'] + seq!['\n'] =~= v2.popped().out + close_struct_text(
                true,
            ));
        } else {
            self.write_char('}');
        }
        self.put_padding();
        assert(self@ =~= old(self)@.after_close_struct());
    }

    /// Open a new field with struct as a value.
    /// @param name Name of the field.
    pub fn open_field_struct(&mut self, name: &str)
        requires
            old(self).wf(),
            old(self)@.accepts_field(),
            old(self)@.indent < i16::MAX,
        ensures
            final(self).wf(),
            final(self)@ == old(self)@.after_open_field(name@).after_open_struct(),
            old(self)@.out.is_prefix_of(final(self)@.out),
    {
        self.open_field(name);
        self.open_struct();
    }

    /// Close the field of type struct.
    /// @param name Name for check.
    pub fn close_field_struct(&mut self, name: &str)
        requires
            old(self).wf(),
            old(self)@.in_nodes(JsonStateEnum::Field, JsonStateEnum::Struct),
            old(self)@.parent_name() == name@,
        ensures
            final(self).wf(),
            final(self)@ == old(self)@.after_close_struct().after_close_field(),
            old(self)@.out.is_prefix_of(final(self)@.out),
    {
        self.close_struct();
        self.close_field(name);
    }

    /// Start a new field with array as content. Internal values must be declared
    /// with print_value().
    /// It must be closed by close_field_array().
    /// @param name Name of the field to declare.
    pub fn open_field_array(&mut self, name: &str)
        requires
            old(self).wf(),
            old(self)@.accepts_field(),
        ensures
            final(self).wf(),
            final(self)@ == old(self)@.after_open_field(name@).after_open_array(),
            old(self)@.out.is_prefix_of(final(self)@.out),
    {
        self.open_field(name);
        self.open_array();
    }

    /// Close a field array opened by open_field_array().
    /// @param name Define the field to terminate (only for checking).
    pub fn close_field_array(&mut self, name: &str)
        requires
            old(self).wf(),
            old(self)@.in_nodes(JsonStateEnum::Field, JsonStateEnum::Array),
            old(self)@.parent_name() == name@,
        ensures
            final(self).wf(),
            final(self)@ == old(self)@.after_close_array().after_close_field(),
            old(self)@.out.is_prefix_of(final(self)@.out),
    {
        self.close_array();
        self.close_field(name);
    }
}

impl JsonState {
    /// Print field based on generic convert_to_json methods to convert the given object into
    /// json. To be used into structures.
    /// @param name Name of the field to print.
    /// @param value Value to affect the field.
    pub fn print_field<T: JsonFieldValue + ?Sized>(&mut self, name: &str, value: &T)
        requires
            old(self).wf(),
            old(self)@.accepts_field(),
            value.accepted_in(JsonStateEnum::Field),
        ensures
            final(self).wf(),
            final(self)@ == old(self)@.after_field(name@, value),
            old(self)@.out.is_prefix_of(final(self)@.out),
    {
        self.open_field(name);
        value.convert_to_json(self);
        self.close_field(name);
    }

    /// Print a value based on generic convert_to_json methods to convert the given object into
    /// json. To be used into arrays or for the root element.
    /// @param value Value to print.
    pub fn print_value<T: JsonFieldValue + ?Sized>(&mut self, value: &T)
        requires
            old(self).wf(),
            old(self)@.accepts_value(),
            value.accepted_in(old(self)@.top_state()),
        ensures
            final(self).wf(),
            final(self)@ == old(self)@.after_value(value, true),
            old(self)@.out.is_prefix_of(final(self)@.out),
    {
        self.print_value_sep_opt(value, true);
    }

    /// Print a value based on generic convert_to_json methods to convert the given object into
    /// json. To be used into arrays or for the root element.
    /// @param value Value to print.
    /// @param separator If need to put the separator of not
    pub fn print_value_sep_opt<T: JsonFieldValue + ?Sized>(&mut self, value: &T, separator: bool)
        requires
            old(self).wf(),
            old(self)@.accepts_value(),
            value.accepted_in(old(self)@.top_state()),
        ensures
            final(self).wf(),
            final(self)@ == old(self)@.after_value(value, separator),
            old(self)@.out.is_prefix_of(final(self)@.out),
    {
        if separator && self.get_state() == JsonStateEnum::Array && !self.is_first() {
            self.write_char(',');
            self.write_char(' ');
            assert(old(self)@.out + seq![','] + seq![' '] =~= old(self)@.out + list_separator());
        }
        value.convert_to_json(self);
        proof {
            lemma_first_done_wf(self@);
        }
        self.first_is_done();
        assert(self@ =~= old(self)@.after_value(value, separator));
    }

    /// Print a slice as a json array field, by using convert_to_json to
    /// convert each value into json.
    /// @param name Name of the field to print.
    /// @param values Values to print.
    pub fn print_field_array<T: JsonFieldValue>(&mut self, name: &str, values: &[T])
        requires
            old(self).wf(),
            old(self)@.accepts_field(),
            forall|i: int| 0 <= i < values@.len() ==> (#[trigger] values@[i]).accepted_in(
                JsonStateEnum::Array,
            ),
        ensures
            final(self).wf(),
            final(self)@ == old(self)@.after_field_array(name@, values@),
            old(self)@.out.is_prefix_of(final(self)@.out),
    {
        self.open_field(name);
        self.print_array(values);
        self.close_field(name);
    }

    /// Print a slice as a json array by using convert_to_json to convert
    /// each value into json.
    /// @param values Values to print.
    pub fn print_array<T: JsonFieldValue>(&mut self, values: &[T])
        requires
            old(self).wf(),
            old(self)@.accepts_value(),
            forall|i: int| 0 <= i < values@.len() ==> (#[trigger] values@[i]).accepted_in(
                JsonStateEnum::Array,
            ),
        ensures
            final(self).wf(),
            final(self)@ == old(self)@.after_array(values@),
            final(self)@.frames == old(self)@.frames,
            final(self)@.names == old(self)@.names,
            old(self)@.out.is_prefix_of(final(self)@.out),
    {
        self.open_array();
        let ghost start = self@;
        assert(start.frames.drop_last() =~= old(self)@.frames);
        assert(start.names.drop_last() =~= old(self)@.names);
        let n = values.len();
        let mut i: usize = 0;
        assert(values@.take(0) =~= Seq::<T>::empty());
        while i < n
            invariant
                n == values@.len(),
                0 <= i <= n,
                start.wf(),
                start.top_state() == JsonStateEnum::Array,
                self.wf(),
                self@ == start.after_values(values@.take(i as int)),
                self@.top_state() == JsonStateEnum::Array,
                self@.names == start.names,
                start.names.drop_last() == old(self)@.names,
                forall|k: int| 0 <= k < values@.len() ==> (#[trigger] values@[k]).accepted_in(
                    JsonStateEnum::Array,
                ),
                self@.frames.len() == start.frames.len(),
                self@.frames.drop_last() == start.frames.drop_last(),
                start.frames.drop_last() == old(self)@.frames,
                old(self)@.out.is_prefix_of(self@.out),
            decreases n - i,
        {
            let ghost before = self@;
            self.print_value(&values[i]);
            proof {
                let t = values@.take(i + 1);
                assert(t.drop_last() =~= values@.take(i as int));
                assert(t.last() == values@[i as int]);
                assert(self@.frames.drop_last() =~= before.frames.drop_last());
                lemma_prefix_trans(old(self)@.out, before.out, self@.out);
            }
            i = i + 1;
        }
        assert(values@.take(n as int) =~= values@);
        let ghost before = self@;
        self.close_array();
        proof {
            lemma_prefix_trans(old(self)@.out, before.out, self@.out);
        }
    }

    /// Push raw value escaped as a string in the stream. This function is
    /// done to push low level types to the stream.
    /// @param value The value's text, as its `Display` gives it.
    pub fn push_raw_string(&mut self, value: &str)
        requires
            old(self).wf(),
            old(self)@.accepts_value(),
        ensures
            final(self).wf(),
            final(self)@ == old(self)@.write(quoted(value@)),
    {
        self.write_quoted(value);
    }

    /// Push raw value escaped as a string in the stream. This function is
    /// done to push low level types to the stream.
    pub fn push_raw_string_str(&mut self, value: &str)
        requires
            old(self).wf(),
            old(self)@.accepts_value(),
        ensures
            final(self).wf(),
            final(self)@ == old(self)@.write(quoted(value@)),
    {
        self.write_quoted(value);
    }

    /// Push raw value in the stream. This function is
    /// done to push low level types to the stream.
    /// @param value The value's text, as its `Display` gives it.
    pub fn push_raw_value(&mut self, value: &str)
        ensures
            final(self)@ == old(self)@.write(value@),
    {
        self.write_str(value);
    }

    /// Push raw value in the stream. This function is
    /// done to push low level types to the stream.
    pub fn push_raw_value_str(&mut self, value: &str)
        ensures
            final(self)@ == old(self)@.write(value@),
    {
        self.write_str(value);
    }

    /// Append `value` between double quotes.
    fn write_quoted(&mut self, value: &str)
        ensures
            final(self)@ == old(self)@.write(quoted(value@)),
    {
        self.write_char('"');
        self.write_str(value);
        self.write_char('"');
        assert(old(self)@.out + seq!['"'] + value@ + seq!['"'] =~= old(self)@.out + quoted(
            value@,
        ));
        assert(self@ =~= old(self)@.write(quoted(value@)));
    }
}

impl JsonFieldValue for String {
    open spec fn json_text(&self, at: JsonView) -> Seq<char> {
        quoted(self@)
    }

    open spec fn accepted_in(&self, node: JsonStateEnum) -> bool {
        node == JsonStateEnum::Root || node == JsonStateEnum::Field || node == JsonStateEnum::Array
    }

    fn convert_to_json(&self, state: &mut JsonState) {
        state.push_raw_string(self.as_str());
    }
}

impl JsonFieldValue for str {
    open spec fn json_text(&self, at: JsonView) -> Seq<char> {
        quoted(self@)
    }

    open spec fn accepted_in(&self, node: JsonStateEnum) -> bool {
        node == JsonStateEnum::Root || node == JsonStateEnum::Field || node == JsonStateEnum::Array
    }

    fn convert_to_json(&self, state: &mut JsonState) {
        state.push_raw_string_str(self);
    }
}

/// Text of `true` or `false`.
pub open spec fn bool_text(b: bool) -> Seq<char> {
    if b {
        seq!['t', 'r', 'u', 'e']
    } else {
        seq!['f', 'a', 'l', 's', 'e']
    }
}

impl JsonFieldValue for bool {
    open spec fn json_text(&self, at: JsonView) -> Seq<char> {
        bool_text(*self)
    }

    open spec fn accepted_in(&self, node: JsonStateEnum) -> bool {
        true
    }

    fn convert_to_json(&self, state: &mut JsonState) {
        if *self {
            let t = "true";
            proof {
                reveal_strlit("true");
            }
            assert(t@ =~= bool_text(true));
            state.push_raw_value_str(t);
        } else {
            let t = "false";
            proof {
                reveal_strlit("false");
            }
            assert(t@ =~= bool_text(false));
            state.push_raw_value_str(t);
        }
    }
}

impl JsonFieldValue for i8 {
    open spec fn json_text(&self, at: JsonView) -> Seq<char> {
        quoted(int_text(*self as int))
    }

    open spec fn accepted_in(&self, node: JsonStateEnum) -> bool {
        node == JsonStateEnum::Root || node == JsonStateEnum::Field || node == JsonStateEnum::Array
    }

    fn convert_to_json(&self, state: &mut JsonState) {
        let t = int_to_text(*self as i128);
        state.push_raw_string(t.as_str());
    }
}

impl JsonFieldValue for i16 {
    open spec fn json_text(&self, at: JsonView) -> Seq<char> {
        quoted(int_text(*self as int))
    }

    open spec fn accepted_in(&self, node: JsonStateEnum) -> bool {
        node == JsonStateEnum::Root || node == JsonStateEnum::Field || node == JsonStateEnum::Array
    }

    fn convert_to_json(&self, state: &mut JsonState) {
        let t = int_to_text(*self as i128);
        state.push_raw_string(t.as_str());
    }
}

impl JsonFieldValue for i32 {
    open spec fn json_text(&self, at: JsonView) -> Seq<char> {
        quoted(int_text(*self as int))
    }

    open spec fn accepted_in(&self, node: JsonStateEnum) -> bool {
        node == JsonStateEnum::Root || node == JsonStateEnum::Field || node == JsonStateEnum::Array
    }

    fn convert_to_json(&self, state: &mut JsonState) {
        let t = int_to_text(*self as i128);
        state.push_raw_string(t.as_str());
    }
}

impl JsonFieldValue for i64 {
    open spec fn json_text(&self, at: JsonView) -> Seq<char> {
        quoted(int_text(*self as int))
    }

    open spec fn accepted_in(&self, node: JsonStateEnum) -> bool {
        node == JsonStateEnum::Root || node == JsonStateEnum::Field || node == JsonStateEnum::Array
    }

    fn convert_to_json(&self, state: &mut JsonState) {
        let t = int_to_text(*self as i128);
        state.push_raw_string(t.as_str());
    }
}

impl JsonFieldValue for i128 {
    open spec fn json_text(&self, at: JsonView) -> Seq<char> {
        quoted(int_text(*self as int))
    }

    open spec fn accepted_in(&self, node: JsonStateEnum) -> bool {
        node == JsonStateEnum::Root || node == JsonStateEnum::Field || node == JsonStateEnum::Array
    }

    fn convert_to_json(&self, state: &mut JsonState) {
        let t = int_to_text(*self);
        state.push_raw_string(t.as_str());
    }
}

} // verus!
