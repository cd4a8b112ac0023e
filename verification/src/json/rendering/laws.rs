//! Properties of the emitter that relate several of its operations.
use vstd::prelude::*;
use super::json_state::{
    JsonFieldValue, JsonStateEnum, JsonStateStruct, JsonView, lemma_first_done_wf, list_separator,
};
use crate::text::tabs;

verus! {

/// `[` in JSON, `{` in Lua: what opens an array.
pub open spec fn array_opening(lua: bool) -> Seq<char> {
    if lua {
        seq!['{']
    } else {
        seq!['[']
    }
}

/// `]` in JSON, `}` in Lua: what closes an array.
pub open spec fn array_closing(lua: bool) -> Seq<char> {
    if lua {
        seq!['}']
    } else {
        seq![']']
    }
}

/// `{`, followed by a line break when indentation is on: what opens a
/// structure.
pub open spec fn struct_opening(use_indent: bool) -> Seq<char> {
    if use_indent {
        seq!['{', '\n']
    } else {
        seq!['{']
    }
}

/// `}`, followed by a line break when indentation is on: what closes a
/// structure.
pub open spec fn struct_closing(use_indent: bool) -> Seq<char> {
    if use_indent {
        seq!['}', '\n']
    } else {
        seq!['}']
    }
}

/// Tabulations for `level` when indentation is on, nothing otherwise.
pub open spec fn tabs_if(use_indent: bool, level: int) -> Seq<char> {
    if use_indent {
        tabs(level as nat)
    } else {
        Seq::empty()
    }
}

/// What comes before a field: nothing for the first one of its structure,
/// else a comma, followed by a line break when indentation is on.
pub open spec fn comma_before(first: bool, use_indent: bool) -> Seq<char> {
    if first {
        Seq::empty()
    } else if use_indent {
        seq![',', '\n']
    } else {
        seq![',']
    }
}

/// The name part of a field: `name=` in Lua, `"name":` in JSON.
pub open spec fn name_part(name: Seq<char>, lua: bool) -> Seq<char> {
    if lua {
        name + seq!['=']
    } else {
        seq!['"'] + name + seq!['"', ':']
    }
}

/// The text of a value does not depend on where it is written.
pub open spec fn context_free<T: JsonFieldValue>(x: T) -> bool {
    forall|a: JsonView, b: JsonView| #[trigger] x.json_text(a) == #[trigger] x.json_text(b)
}

/// The texts of `values`, taken in state `at`, joined by list separators.
pub open spec fn joined<T: JsonFieldValue>(values: Seq<T>, at: JsonView) -> Seq<char>
    decreases values.len(),
{
    if values.len() == 0 {
        Seq::empty()
    } else if values.len() == 1 {
        values[0].json_text(at)
    } else {
        joined(values.drop_last(), at) + seq![',', ' '] + values.last().json_text(at)
    }
}

/// Printing values one after the other only marks the innermost node as
/// holding something (once there is at least one value) and appends text:
/// the other nodes, the indentation and the options are left as they were.
pub proof fn lemma_values_keep_nesting<T: JsonFieldValue>(v: JsonView, values: Seq<T>)
    requires
        v.frames.len() >= 1,
    ensures
        v.after_values(values).frames.len() == v.frames.len(),
        v.after_values(values).frames.drop_last() == v.frames.drop_last(),
        v.after_values(values).top_state() == v.top_state(),
        v.after_values(values).is_first() == (v.is_first() && values.len() == 0),
        v.after_values(values).indent == v.indent,
        v.after_values(values).names == v.names,
        v.after_values(values).use_indent == v.use_indent,
        v.after_values(values).lua == v.lua,
        v.out.is_prefix_of(v.after_values(values).out),
    decreases values.len(),
{
    if values.len() > 0 {
        lemma_values_keep_nesting(v, values.drop_last());
        let w = v.after_values(values.drop_last());
        assert(w.after_value(&values.last(), true).frames.drop_last() =~= w.frames.drop_last());
        let u = v.after_values(values);
        assert(v.out =~= u.out.subrange(0, v.out.len() as int));
    } else {
        assert(v.out =~= v.out.subrange(0, v.out.len() as int));
    }
}

/// An array leaves the nesting, the indentation and the options as it found
/// them, and only appends to the output.
pub proof fn lemma_array_keeps_nesting<T: JsonFieldValue>(v: JsonView, values: Seq<T>)
    requires
        v.wf(),
        v.accepts_value(),
    ensures
        v.after_array(values).frames == v.frames,
        v.after_array(values).indent == v.indent,
        v.after_array(values).names == v.names,
        v.after_array(values).use_indent == v.use_indent,
        v.after_array(values).lua == v.lua,
        v.out.is_prefix_of(v.after_array(values).out),
{
    let o = v.after_open_array();
    lemma_values_keep_nesting(o, values);
    assert(o.frames.drop_last() =~= v.frames);
    assert(o.names.drop_last() =~= v.names);
    let w = o.after_values(values);
    assert(w.after_close_array().frames =~= v.frames);
    let a = v.after_array(values);
    assert forall|k: int| 0 <= k < v.out.len() implies a.out[k] == v.out[k] by {
        assert(a.out[k] == w.out[k]);
        assert(w.out.subrange(0, o.out.len() as int)[k] == o.out[k]);
        assert(o.out[k] == v.out[k]);
    }
    assert(v.out =~= a.out.subrange(0, v.out.len() as int));
}

/// The values of an array whose texts do not depend on where they are
/// written come out in order, separated by list separators, between the
/// array's brackets.
pub proof fn lemma_array_text<T: JsonFieldValue>(v: JsonView, values: Seq<T>)
    requires
        v.wf(),
        v.accepts_value(),
        forall|i: int| 0 <= i < values.len() ==> context_free(#[trigger] values[i]),
    ensures
        v.after_array(values).out == v.out + array_opening(v.lua) + joined(values, v)
            + array_closing(v.lua),
{
    let o = v.after_open_array();
    lemma_values_text(o, values, v);
    lemma_values_keep_nesting(o, values);
    assert(v.after_array(values).out =~= v.out + array_opening(v.lua) + joined(values, v)
        + array_closing(v.lua));
}

/// Inside an array, values whose texts do not depend on where they are
/// written are appended in order with a list separator between two of them.
proof fn lemma_values_text<T: JsonFieldValue>(o: JsonView, values: Seq<T>, at: JsonView)
    requires
        o.frames.len() >= 1,
        o.top_state() == JsonStateEnum::Array,
        o.is_first(),
        forall|i: int| 0 <= i < values.len() ==> context_free(#[trigger] values[i]),
    ensures
        o.after_values(values).out == o.out + joined(values, at),
    decreases values.len(),
{
    if values.len() > 0 {
        let init = values.drop_last();
        assert forall|i: int| 0 <= i < init.len() implies context_free(#[trigger] init[i]) by {
            assert(init[i] == values[i]);
        }
        lemma_values_text(o, init, at);
        lemma_values_keep_nesting(o, init);
        let w = o.after_values(init);
        let x = values.last();
        assert(context_free(values[values.len() - 1]));
        if values.len() == 1 {
            assert(init.len() == 0);
            assert(x.json_text(w) == x.json_text(at));
            assert(o.after_values(values).out =~= o.out + joined(values, at));
        } else {
            assert(!w.is_first());
            let ws = w.write(list_separator());
            assert(x.json_text(ws) == x.json_text(at));
            assert(o.after_values(values).out =~= o.out + joined(values, at));
        }
    }
}

/// Closing an array right after opening it writes the two brackets and
/// leaves the state as it was.
pub proof fn lemma_close_array_undoes_open_array(v: JsonView)
    requires
        v.wf(),
        v.accepts_value(),
    ensures
        v.after_open_array().after_close_array() == v.write(
            array_opening(v.lua) + array_closing(v.lua),
        ),
{
    let a = JsonStateStruct { state: JsonStateEnum::Array, is_first: true };
    assert(v.frames.push(a).drop_last() =~= v.frames);
    assert(v.names.push(Seq::empty()).drop_last() =~= v.names);
    assert(v.out + array_opening(v.lua) + array_closing(v.lua) =~= v.out + (array_opening(
        v.lua,
    ) + array_closing(v.lua)));
    assert(v.after_open_array().after_close_array() =~= v.write(
        array_opening(v.lua) + array_closing(v.lua),
    ));
}

/// Closing a structure right after opening it writes the two braces and
/// the indentation of the level it was opened at, and leaves the state as
/// it was.
pub proof fn lemma_close_struct_undoes_open_struct(v: JsonView)
    requires
        v.wf(),
        v.accepts_value(),
        v.indent < i16::MAX,
    ensures
        v.after_open_struct().after_close_struct() == v.write(
            struct_opening(v.use_indent) + struct_closing(v.use_indent) + tabs_if(
                v.use_indent,
                v.indent,
            ),
        ),
{
    let o = v.after_open_struct();
    assert(o.is_first());
    let a = JsonStateStruct { state: JsonStateEnum::Struct, is_first: true };
    assert(v.frames.push(a).drop_last() =~= v.frames);
    assert(v.names.push(Seq::empty()).drop_last() =~= v.names);
    let c = o.after_close_struct();
    assert(c.frames =~= v.frames);
    assert(c.indent == v.indent);
    assert(c.out =~= v.out + struct_opening(v.use_indent) + struct_closing(v.use_indent)
        + v.padding());
    assert(v.out + struct_opening(v.use_indent) + struct_closing(v.use_indent) + v.padding()
        =~= v.out + (struct_opening(v.use_indent) + struct_closing(v.use_indent)
        + v.padding()));
    assert(o.after_close_struct() =~= v.write(
        struct_opening(v.use_indent) + struct_closing(v.use_indent) + v.padding(),
    ));
}

/// Closing a field right after opening it leaves the nesting as it was,
/// with the enclosing node marked as holding something.
pub proof fn lemma_close_field_undoes_open_field(v: JsonView, name: Seq<char>)
    requires
        v.wf(),
        v.accepts_field(),
    ensures
        v.after_open_field(name).after_close_field().frames == v.first_done().frames,
        v.after_open_field(name).after_close_field().names == v.names,
        v.after_open_field(name).after_close_field().indent == v.indent,
        v.out.is_prefix_of(v.after_open_field(name).after_close_field().out),
{
    let w = v.after_open_field(name).after_close_field();
    assert(w.frames =~= v.first_done().frames);
    assert(w.names =~= v.names);
    assert(v.out =~= w.out.subrange(0, v.out.len() as int));
}

/// After the fields of `fields` (name and value), one after the other.
pub open spec fn after_fields<T: JsonFieldValue>(v: JsonView, fields: Seq<(Seq<char>, T)>) -> JsonView
    decreases fields.len(),
{
    if fields.len() == 0 {
        v
    } else {
        after_fields(v, fields.drop_last()).after_field(fields.last().0, &fields.last().1)
    }
}

/// The text of one field printed in state `at`: the indentation, the
/// field's name and the text of its value.
pub open spec fn field_text<T: JsonFieldValue>(field: (Seq<char>, T), at: JsonView) -> Seq<char> {
    tabs_if(at.use_indent, at.indent) + name_part(field.0, at.lua) + field.1.json_text(at)
}

/// The texts of `fields`, printed in state `at`, joined by field
/// separators.
pub open spec fn joined_fields<T: JsonFieldValue>(
    fields: Seq<(Seq<char>, T)>,
    at: JsonView,
) -> Seq<char>
    decreases fields.len(),
{
    if fields.len() == 0 {
        Seq::empty()
    } else if fields.len() == 1 {
        field_text(fields[0], at)
    } else {
        joined_fields(fields.drop_last(), at) + comma_before(false, at.use_indent) + field_text(
            fields.last(),
            at,
        )
    }
}

/// Printing fields one after the other only marks the innermost node as
/// holding something (once there is at least one field) and appends text.
pub proof fn lemma_fields_keep_nesting<T: JsonFieldValue>(v: JsonView, fields: Seq<(Seq<char>, T)>)
    requires
        v.frames.len() >= 1,
    ensures
        after_fields(v, fields).frames.len() == v.frames.len(),
        after_fields(v, fields).frames.drop_last() == v.frames.drop_last(),
        after_fields(v, fields).top_state() == v.top_state(),
        after_fields(v, fields).is_first() == (v.is_first() && fields.len() == 0),
        after_fields(v, fields).indent == v.indent,
        after_fields(v, fields).use_indent == v.use_indent,
        after_fields(v, fields).lua == v.lua,
    decreases fields.len(),
{
    if fields.len() > 0 {
        lemma_fields_keep_nesting(v, fields.drop_last());
        let w = after_fields(v, fields.drop_last());
        let o = w.after_open_field(fields.last().0);
        assert(o.frames.drop_last() =~= w.frames);
        assert(after_fields(v, fields).frames.drop_last() =~= w.frames.drop_last());
    }
}

/// In a structure (or at the root) where nothing was written yet, fields
/// whose values have texts that do not depend on where they are written
/// come out in order, each on its own indentation, separated by field
/// separators.
pub proof fn lemma_fields_text<T: JsonFieldValue>(v: JsonView, fields: Seq<(Seq<char>, T)>)
    requires
        v.frames.len() >= 1,
        v.accepts_field(),
        v.is_first(),
        forall|i: int| 0 <= i < fields.len() ==> context_free(#[trigger] fields[i].1),
    ensures
        after_fields(v, fields).out == v.out + joined_fields(fields, v),
    decreases fields.len(),
{
    if fields.len() > 0 {
        let init = fields.drop_last();
        assert forall|i: int| 0 <= i < init.len() implies context_free(#[trigger] init[i].1) by {
            assert(init[i] == fields[i]);
        }
        lemma_fields_text(v, init);
        lemma_fields_keep_nesting(v, init);
        let w = after_fields(v, init);
        let x = fields.last();
        assert(context_free(fields[fields.len() - 1].1));
        let o = w.after_open_field(x.0);
        assert(x.1.json_text(o) == x.1.json_text(v));
        assert(w.padding() == v.padding());
        if fields.len() == 1 {
            assert(after_fields(v, fields).out =~= v.out + joined_fields(fields, v));
        } else {
            assert(!w.is_first());
            assert(after_fields(v, fields).out =~= v.out + joined_fields(fields, v));
        }
    }
}

/// An indented structure holding at least one field whose value's text
/// does not depend on where it is written: an opening brace on its own
/// line, the fields joined by field separators, then the closing brace on
/// a line of its own at the structure's indentation.
pub proof fn lemma_struct_text<T: JsonFieldValue>(v: JsonView, fields: Seq<(Seq<char>, T)>)
    requires
        v.wf(),
        v.accepts_value(),
        v.indent < i16::MAX,
        v.use_indent,
        fields.len() >= 1,
        forall|i: int| 0 <= i < fields.len() ==> context_free(#[trigger] fields[i].1),
    ensures
        after_fields(v.after_open_struct(), fields).after_close_struct().out == v.out
            + struct_opening(true) + joined_fields(fields, v.after_open_struct()) + seq!['\n']
            + tabs_if(true, v.indent) + struct_closing(true) + tabs_if(true, v.indent),
{
    let o = v.after_open_struct();
    lemma_fields_text(o, fields);
    lemma_fields_keep_nesting(o, fields);
    let w = after_fields(o, fields);
    let c = w.after_close_struct();
    let v1 = JsonView { indent: w.indent - 1, ..w };
    assert(v1.padding() == v.padding());
    assert(w.popped().indent == w.indent);
    assert(c.out =~= v.out + struct_opening(true) + joined_fields(fields, o) + seq!['\n']
        + v.padding() + struct_closing(true) + v.padding());
}

/// One step of the emitter, as its model sees it. Every public operation
/// is one of these steps or a sequence of them.
pub enum Event {
    /// A field named by the payload opened.
    OpenField(Seq<char>),
    /// The current field closed.
    CloseField,
    /// A list separator.
    ListSeparator,
    /// An array opened.
    OpenArray,
    /// The current array closed.
    CloseArray,
    /// A structure opened.
    OpenStruct,
    /// The current structure closed.
    CloseStruct,
    /// Text appended as it is (raw strings and raw values).
    Write(Seq<char>),
    /// A value with the given text, preceded by a list separator when the
    /// flag is set and one is needed.
    Value(Seq<char>, bool),
}

/// The state after one step.
pub open spec fn apply(v: JsonView, e: Event) -> JsonView {
    match e {
        Event::OpenField(name) => v.after_open_field(name),
        Event::CloseField => v.after_close_field(),
        Event::ListSeparator => v.after_list_separator(),
        Event::OpenArray => v.after_open_array(),
        Event::CloseArray => v.after_close_array(),
        Event::OpenStruct => v.after_open_struct(),
        Event::CloseStruct => v.after_close_struct(),
        Event::Write(text) => v.write(text),
        Event::Value(text, separator) => v.value_position(separator).write(text).first_done(),
    }
}

/// The state after the steps of `events`, in order.
pub open spec fn run(v: JsonView, events: Seq<Event>) -> JsonView
    decreases events.len(),
{
    if events.len() == 0 {
        v
    } else {
        apply(run(v, events.drop_last()), events.last())
    }
}

/// A value, and a field holding one, are steps of the emitter.
pub proof fn lemma_values_are_events<T: JsonFieldValue + ?Sized>(
    v: JsonView,
    value: &T,
    separator: bool,
    name: Seq<char>,
)
    ensures
        v.after_value(value, separator) == apply(
            v,
            Event::Value(value.json_text(v.value_position(separator)), separator),
        ),
        v.after_field(name, value) == run(
            v,
            seq![
                Event::OpenField(name),
                Event::Write(value.json_text(v.after_open_field(name))),
                Event::CloseField,
            ],
        ),
{
    let es = seq![
        Event::OpenField(name),
        Event::Write(value.json_text(v.after_open_field(name))),
        Event::CloseField,
    ];
    assert(es.drop_last().drop_last().drop_last() =~= Seq::<Event>::empty());
    assert(es.drop_last().drop_last() =~= seq![Event::OpenField(name)]);
    assert(es.drop_last() =~= seq![
        Event::OpenField(name),
        Event::Write(value.json_text(v.after_open_field(name))),
    ]);
    let o = v.after_open_field(name);
    assert(run(v, es.drop_last().drop_last().drop_last()) == v);
    assert(run(v, es.drop_last().drop_last()) == o);
    assert(run(v, es.drop_last()) == o.write(value.json_text(o)));
    assert(run(v, es) == o.write(value.json_text(o)).after_close_field());
}

/// Printing values one after the other is a sequence of value steps.
pub proof fn lemma_values_run<T: JsonFieldValue>(v: JsonView, values: Seq<T>)
    ensures
        exists|events: Seq<Event>| v.after_values(values) == run(v, events),
    decreases values.len(),
{
    if values.len() == 0 {
        assert(v.after_values(values) == run(v, Seq::<Event>::empty()));
    } else {
        lemma_values_run(v, values.drop_last());
        let events = choose|events: Seq<Event>| v.after_values(values.drop_last()) == run(v, events);
        let w = v.after_values(values.drop_last());
        let x = values.last();
        let e = Event::Value(x.json_text(w.value_position(true)), true);
        assert(events.push(e).drop_last() =~= events);
        assert(v.after_values(values) == run(v, events.push(e)));
    }
}

/// No step changes the options: the indentation switch and the Lua switch
/// stay what they were when the emitter was made.
pub proof fn lemma_run_keeps_options(v: JsonView, events: Seq<Event>)
    ensures
        run(v, events).lua == v.lua,
        run(v, events).use_indent == v.use_indent,
    decreases events.len(),
{
    if events.len() > 0 {
        lemma_run_keeps_options(v, events.drop_last());
    }
}

/// List separators leave the kinds of the nodes as they are: an emitter
/// that only writes list separators stays at its root.
pub proof fn lemma_separators_keep_nodes(v: JsonView, events: Seq<Event>)
    requires
        v.wf(),
        forall|i: int| 0 <= i < events.len() ==> #[trigger] events[i] == Event::ListSeparator,
    ensures
        run(v, events).wf(),
        run(v, events).frames.len() == v.frames.len(),
        run(v, events).top_state() == v.top_state(),
        forall|i: int|
            0 <= i < v.frames.len() ==> #[trigger] run(v, events).frames[i].state
                == v.frames[i].state,
    decreases events.len(),
{
    if events.len() > 0 {
        let init = events.drop_last();
        assert forall|i: int| 0 <= i < init.len() implies #[trigger] init[i]
            == Event::ListSeparator by {
            assert(init[i] == events[i]);
        }
        lemma_separators_keep_nodes(v, init);
        let w = run(v, init);
        assert(events.last() == events[events.len() - 1]);
        lemma_list_separator_wf(w);
    }
}

/// A list separator keeps the state well formed and the kinds of its
/// nodes.
pub proof fn lemma_list_separator_wf(w: JsonView)
    requires
        w.wf(),
    ensures
        w.after_list_separator().wf(),
        w.after_list_separator().frames.len() == w.frames.len(),
        forall|i: int|
            0 <= i < w.frames.len() ==> #[trigger] w.after_list_separator().frames[i].state
                == w.frames[i].state,
{
    let u = w.after_list_separator();
    let p = if w.top_state() == JsonStateEnum::Array && !w.is_first() {
        w.write(list_separator())
    } else {
        w
    };
    lemma_first_done_wf(p);
    assert forall|i: int| 0 <= i < w.frames.len() implies #[trigger] u.frames[i].state
        == w.frames[i].state by {
        if i < w.frames.len() - 1 {
            assert(u.frames[i] == w.frames[i]);
        }
    }
}

} // verus!
