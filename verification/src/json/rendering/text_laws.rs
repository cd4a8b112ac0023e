//! What each operation writes, spelled out character by character, and what
//! the text of each kind of value is.
use vstd::prelude::*;
use super::json_state::{
    JsonFieldValue, JsonStateEnum, JsonStateStruct, JsonView, lemma_pushed_wf, lemma_popped_wf,
    lemma_popped_struct_wf, quoted,
};
use super::laws::{
    comma_before, context_free, joined, lemma_array_keeps_nesting, lemma_array_text, name_part,
    tabs_if,
};
use crate::text::{
    all_digits, decimal, digits_value, int_text, lemma_decimal_round_trip, tabs,
};

verus! {

/// The innermost node marked as holding something, the others unchanged.
pub open spec fn marked(frames: Seq<JsonStateStruct>) -> Seq<JsonStateStruct> {
    frames.update(
        frames.len() - 1,
        JsonStateStruct { state: frames.last().state, is_first: false },
    )
}

/// A list separator writes `, ` exactly when the innermost node is an array
/// that already holds an element, whatever the options, and marks the node.
pub proof fn lemma_list_separator_writes(v: JsonView)
    requires
        v.frames.len() >= 1,
    ensures
        v.after_list_separator().out == if v.top_state() == JsonStateEnum::Array
            && !v.is_first() {
            v.out + seq![',', ' ']
        } else {
            v.out
        },
        v.after_list_separator().frames == marked(v.frames),
        v.after_list_separator().names == v.names,
        v.after_list_separator().indent == v.indent,
{
}

/// Opening and closing arrays and structures write their brackets: `[` `]`
/// in JSON and `{` `}` in Lua for arrays, `{` `}` for structures, with a line
/// break after a structure's brace when indentation is on; closing a
/// structure goes back one level, breaking the line first when the
/// structure holds something, and indents for the level it returns to.
pub proof fn lemma_brackets_written(v: JsonView)
    requires
        v.wf(),
    ensures
        v.after_open_array().out == v.out + (if v.lua {
            seq!['{']
        } else {
            seq!['[']
        }),
        v.top_state() == JsonStateEnum::Array ==> v.after_close_array().out == v.out + (if v.lua {
            seq!['}']
        } else {
            seq![']']
        }),
        v.top_state() == JsonStateEnum::Array ==> v.after_close_array().frames
            == v.frames.drop_last(),
        v.after_open_struct().out == v.out + (if v.use_indent {
            seq!['{', '\n']
        } else {
            seq!['{']
        }),
        v.after_open_struct().indent == v.indent + 1,
        v.top_state() == JsonStateEnum::Struct ==> {
            &&& v.indent >= 1
            &&& v.after_close_struct().out == v.out + (if !v.is_first() && v.use_indent {
                seq!['\n'] + tabs((v.indent - 1) as nat)
            } else {
                Seq::empty()
            }) + (if v.use_indent {
                seq!['}', '\n']
            } else {
                seq!['}']
            }) + tabs_if(v.use_indent, v.indent - 1)
            &&& v.after_close_struct().frames == v.frames.drop_last()
            &&& v.after_close_struct().indent == v.indent - 1
        },
{
    if v.top_state() == JsonStateEnum::Struct {
        lemma_popped_struct_wf(v);
        let c = v.after_close_struct();
        assert(c.out =~= v.out + (if !v.is_first() && v.use_indent {
            seq!['\n'] + tabs((v.indent - 1) as nat)
        } else {
            Seq::empty()
        }) + (if v.use_indent {
            seq!['}', '\n']
        } else {
            seq!['}']
        }) + tabs_if(v.use_indent, v.indent - 1));
    }
}

/// A field holding a value whose text does not depend on where it is
/// written: the comma (unless it is the first field), the indentation, the
/// name part, then the value's text; the enclosing node is marked and the
/// nesting is as before.
pub proof fn lemma_field_writes<T: JsonFieldValue>(v: JsonView, name: Seq<char>, value: T)
    requires
        v.wf(),
        v.accepts_field(),
        context_free(value),
    ensures
        v.after_field(name, &value).out == v.out + comma_before(v.is_first(), v.use_indent)
            + tabs_if(v.use_indent, v.indent) + name_part(name, v.lua) + value.json_text(v),
        v.after_field(name, &value).frames == marked(v.frames),
        v.after_field(name, &value).names == v.names,
        v.after_field(name, &value).indent == v.indent,
{
    let o = v.after_open_field(name);
    assert(value.json_text(o) == value.json_text(v));
    let w = v.after_field(name, &value);
    assert(w.out =~= v.out + comma_before(v.is_first(), v.use_indent) + tabs_if(
        v.use_indent,
        v.indent,
    ) + name_part(name, v.lua) + value.json_text(v));
    assert(w.frames =~= marked(v.frames));
    assert(w.names =~= v.names);
}

/// A field holding an array of values whose texts do not depend on where
/// they are written: the comma (unless it is the first field), the
/// indentation, the name part, the opening bracket, the values separated by
/// `, `, the closing bracket; the enclosing node is marked and the nesting
/// is as before.
pub proof fn lemma_field_array_writes<T: JsonFieldValue>(
    v: JsonView,
    name: Seq<char>,
    values: Seq<T>,
)
    requires
        v.wf(),
        v.accepts_field(),
        forall|i: int| 0 <= i < values.len() ==> context_free(#[trigger] values[i]),
    ensures
        v.after_field_array(name, values).out == v.out + comma_before(v.is_first(), v.use_indent)
            + tabs_if(v.use_indent, v.indent) + name_part(name, v.lua) + (if v.lua {
            seq!['{']
        } else {
            seq!['[']
        }) + joined(values, v) + (if v.lua {
            seq!['}']
        } else {
            seq![']']
        }),
        v.after_field_array(name, values).frames == marked(v.frames),
        v.after_field_array(name, values).names == v.names,
        v.after_field_array(name, values).indent == v.indent,
{
    let sep = comma_before(v.is_first(), v.use_indent);
    lemma_pushed_wf(v.write(sep), JsonStateEnum::Field, name);
    let o = v.after_open_field(name);
    assert(o.wf());
    lemma_array_text(o, values);
    lemma_array_keeps_nesting(o, values);
    let a = o.after_array(values);
    assert(a.names == o.names);
    lemma_popped_wf(a);
    lemma_joined_anywhere(values, o, v);
    assert(o.out =~= v.out + sep + tabs_if(v.use_indent, v.indent) + name_part(name, v.lua));
    assert(a.out == o.out + (if v.lua {
        seq!['{']
    } else {
        seq!['[']
    }) + joined(values, o) + (if v.lua {
        seq!['}']
    } else {
        seq![']']
    }));
    let w = v.after_field_array(name, values);
    assert(w.out == a.out);
    assert(w.out =~= v.out + sep + tabs_if(v.use_indent, v.indent) + name_part(name, v.lua) + (
    if v.lua {
        seq!['{']
    } else {
        seq!['[']
    }) + joined(values, v) + (if v.lua {
        seq!['}']
    } else {
        seq![']']
    }));
    assert(w.frames =~= marked(v.frames));
    assert(w.names =~= v.names);
}

/// Values whose texts do not depend on where they are written join to the
/// same text wherever the join is taken.
proof fn lemma_joined_anywhere<T: JsonFieldValue>(values: Seq<T>, a: JsonView, b: JsonView)
    requires
        forall|i: int| 0 <= i < values.len() ==> context_free(#[trigger] values[i]),
    ensures
        joined(values, a) == joined(values, b),
    decreases values.len(),
{
    if values.len() > 0 {
        let init = values.drop_last();
        assert forall|i: int| 0 <= i < init.len() implies context_free(#[trigger] init[i]) by {
            assert(init[i] == values[i]);
        }
        lemma_joined_anywhere(init, a, b);
        assert(context_free(values[values.len() - 1]));
        assert(values.last().json_text(a) == values.last().json_text(b));
        if values.len() == 1 {
            assert(values[0].json_text(a) == values[0].json_text(b));
        }
    }
}

/// `t` is the text of the integer `i` between double quotes: a `-` exactly
/// when `i` is negative, then decimal digits without a leading zero that
/// read back as the magnitude of `i`.
pub open spec fn is_quoted_integer(t: Seq<char>, i: int) -> bool {
    let body = t.subrange(1, t.len() - 1);
    let digits = if i < 0 {
        body.drop_first()
    } else {
        body
    };
    &&& t.len() >= 3
    &&& t[0] == '"'
    &&& t[t.len() - 1] == '"'
    &&& (i < 0 ==> body[0] == '-')
    &&& digits.len() >= 1
    &&& all_digits(digits)
    &&& digits_value(digits) == (if i < 0 {
        -i
    } else {
        i
    })
    &&& (digits[0] == '0' ==> digits.len() == 1)
}

/// The quoted decimal text of an integer is a quoted integer text.
proof fn lemma_quoted_int_text(i: int)
    ensures
        is_quoted_integer(seq!['"'] + int_text(i) + seq!['"'], i),
{
    let m: nat = if i < 0 {
        (-i) as nat
    } else {
        i as nat
    };
    lemma_decimal_round_trip(m);
    let d = decimal(m);
    let t = seq!['"'] + int_text(i) + seq!['"'];
    let body = t.subrange(1, t.len() - 1);
    assert(body =~= int_text(i));
    let digits = if i < 0 {
        body.drop_first()
    } else {
        body
    };
    if i < 0 {
        assert(int_text(i) == seq!['-'] + d);
        assert(body.drop_first() =~= d);
        assert(body[0] == '-');
    } else {
        assert(int_text(i) == d);
    }
    assert(digits == d);
    assert(t.len() == d.len() + 2 + if i < 0 {
        1int
    } else {
        0int
    });
    assert(t[0] == '"');
    assert(t[t.len() - 1] == '"');
}

/// An `i8` is written as its signed decimal text between double quotes.
pub proof fn lemma_i8_text(x: i8, at: JsonView)
    ensures
        is_quoted_integer(x.json_text(at), x as int),
{
    lemma_quoted_int_text(x as int);
}

/// An `i16` is written as its signed decimal text between double quotes.
pub proof fn lemma_i16_text(x: i16, at: JsonView)
    ensures
        is_quoted_integer(x.json_text(at), x as int),
{
    lemma_quoted_int_text(x as int);
}

/// An `i32` is written as its signed decimal text between double quotes.
pub proof fn lemma_i32_text(x: i32, at: JsonView)
    ensures
        is_quoted_integer(x.json_text(at), x as int),
{
    lemma_quoted_int_text(x as int);
}

/// An `i64` is written as its signed decimal text between double quotes.
pub proof fn lemma_i64_text(x: i64, at: JsonView)
    ensures
        is_quoted_integer(x.json_text(at), x as int),
{
    lemma_quoted_int_text(x as int);
}

/// An `i128` is written as its signed decimal text between double quotes.
pub proof fn lemma_i128_text(x: i128, at: JsonView)
    ensures
        is_quoted_integer(x.json_text(at), x as int),
{
    lemma_quoted_int_text(x as int);
}

/// A string, the empty one included, is written as its characters between
/// two double quotes, wherever it is written.
pub proof fn lemma_string_text(s: String, r: &str, at: JsonView)
    ensures
        s.json_text(at) == seq!['"'] + s@ + seq!['"'],
        s.json_text(at).len() == s@.len() + 2,
        r.json_text(at) == seq!['"'] + r@ + seq!['"'],
        r.json_text(at).len() == r@.len() + 2,
{
}

/// A boolean is written bare as `true` or `false`, wherever it is written.
pub proof fn lemma_bool_text(b: bool, at: JsonView)
    ensures
        b.json_text(at) == if b {
            seq!['t', 'r', 'u', 'e']
        } else {
            seq!['f', 'a', 'l', 's', 'e']
        },
{
}

/// A value whose text does not depend on where it is written: `, ` first
/// when a separator is asked for and the value follows another in an
/// array, then the value's text; the innermost node is marked.
pub proof fn lemma_value_writes<T: JsonFieldValue>(v: JsonView, value: T, separator: bool)
    requires
        v.frames.len() >= 1,
        context_free(value),
    ensures
        v.after_value(&value, separator).out == v.out + (if separator && v.top_state()
            == JsonStateEnum::Array && !v.is_first() {
            seq![',', ' ']
        } else {
            Seq::empty()
        }) + value.json_text(v),
        v.after_value(&value, separator).frames == marked(v.frames),
        v.after_value(&value, separator).names == v.names,
        v.after_value(&value, separator).indent == v.indent,
{
    let p = v.value_position(separator);
    assert(value.json_text(p) == value.json_text(v));
    assert(v.after_value(&value, separator).out =~= v.out + (if separator && v.top_state()
        == JsonStateEnum::Array && !v.is_first() {
        seq![',', ' ']
    } else {
        Seq::empty()
    }) + value.json_text(v));
}

/// A raw string is written as its characters between two double quotes.
pub proof fn lemma_raw_string_quoted(s: Seq<char>)
    ensures
        quoted(s) == seq!['"'] + s + seq!['"'],
        quoted(s).len() == s.len() + 2,
{
}

} // verus!
