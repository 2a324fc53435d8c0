//! Rendering of results, events and invocations as `{args, kwargs}`.
//!
//! Values arrive as the session endpoint delivers them and leave as JSON
//! values. Floating-point numbers are carried as their IEEE 754 bits.

use vstd::prelude::*;

verus! {

/// A value as the session endpoint delivers it.
#[derive(Debug, PartialEq, Eq)]
pub enum WampValue {
    /// An integer.
    Int(i64),
    /// A string.
    Str(String),
    /// A boolean.
    Bool(bool),
    /// A floating-point number, as its bits.
    Float(u64),
    /// An ordered sequence of values.
    List(Vec<WampValue>),
    /// Named values, in the order of delivery. The endpoint delivers each
    /// name once: see [`WampValue::names_distinct`].
    Dict(Vec<(String, WampValue)>),
    /// An opaque binary payload.
    Bytes(Vec<u8>),
    /// A value of any other kind. The number is the caller's own handle for
    /// the value, by which the caller finds it again; the library carries it
    /// and does not read it.
    Other(u64),
}

/// A JSON value.
#[derive(Debug, PartialEq, Eq)]
pub enum JsonValue {
    Null,
    Bool(bool),
    /// An integral number.
    Integer(i64),
    /// A finite floating-point number, as its bits.
    Float(u64),
    String(String),
    Array(Vec<JsonValue>),
    /// Named values, in the order in which they were delivered. No name
    /// occurs twice where none did in what was delivered: see
    /// [`json_names_distinct`].
    Object(Vec<(String, JsonValue)>),
}

/// What a [`JsonValue`] stands for.
pub enum JsonView {
    Null,
    Bool(bool),
    Integer(int),
    Float(u64),
    Text(Seq<char>),
    Array(Seq<JsonView>),
    Object(Seq<(Seq<char>, JsonView)>),
}

/// What is shown for a result, an event or an invocation.
#[derive(Debug, PartialEq, Eq)]
pub struct CommandOutput {
    /// The positional values, in order.
    pub args: Vec<JsonValue>,
    /// The named values.
    pub kwargs: Vec<(String, JsonValue)>,
}

/// What a [`CommandOutput`] stands for.
pub struct OutputView {
    pub args: Seq<JsonView>,
    pub kwargs: Seq<(Seq<char>, JsonView)>,
}

/// An invocation of a registered procedure.
#[derive(Debug, PartialEq, Eq)]
pub struct Invocation {
    pub args: Vec<WampValue>,
    pub kwargs: Vec<(String, WampValue)>,
}

/// The answer to an invocation.
#[derive(Debug, PartialEq, Eq)]
pub struct Yield {
    pub args: Vec<WampValue>,
    pub kwargs: Vec<(String, WampValue)>,
}

/// An event delivered to a subscription.
#[derive(Debug, PartialEq, Eq)]
pub struct Event {
    pub args: Vec<WampValue>,
    pub kwargs: Vec<(String, WampValue)>,
}

/// Whether the bits are those of a finite number: neither an infinity nor
/// not-a-number, whose exponent field holds ones only.
pub open spec fn is_finite_bits(bits: u64) -> bool {
    (bits >> 52) & 0x7ff != 0x7ff
}

/// What stands for an opaque binary payload.
pub open spec fn binary_sentinel() -> Seq<char> {
    "<binary>"@
}

impl JsonValue {
    /// What the value stands for.
    pub open spec fn model(self) -> JsonView
        decreases self,
    {
        match self {
            JsonValue::Null => JsonView::Null,
            JsonValue::Bool(b) => JsonView::Bool(b),
            JsonValue::Integer(i) => JsonView::Integer(i as int),
            JsonValue::Float(bits) => JsonView::Float(bits),
            JsonValue::String(s) => JsonView::Text(s@),
            JsonValue::Array(items) => JsonView::Array(
                Seq::new(
                    items@.len(),
                    |i: int|
                        if 0 <= i < items@.len() {
                            items@[i].model()
                        } else {
                            JsonView::Null
                        },
                ),
            ),
            JsonValue::Object(entries) => JsonView::Object(
                Seq::new(
                    entries@.len(),
                    |i: int|
                        if 0 <= i < entries@.len() {
                            (entries@[i].0@, entries@[i].1.model())
                        } else {
                            (Seq::empty(), JsonView::Null)
                        },
                ),
            ),
        }
    }
}

impl View for JsonValue {
    type V = JsonView;

    open spec fn view(&self) -> JsonView {
        self.model()
    }
}

/// What a list of JSON values stands for.
pub open spec fn items_view(items: Seq<JsonValue>) -> Seq<JsonView> {
    Seq::new(items.len(), |i: int| items[i]@)
}

/// What a list of named JSON values stands for.
pub open spec fn entries_view(entries: Seq<(String, JsonValue)>) -> Seq<(Seq<char>, JsonView)> {
    Seq::new(entries.len(), |i: int| (entries[i].0@, entries[i].1@))
}

impl View for CommandOutput {
    type V = OutputView;

    open spec fn view(&self) -> OutputView {
        OutputView { args: items_view(self.args@), kwargs: entries_view(self.kwargs@) }
    }
}

/// Whether no name occurs twice among named delivered values.
pub open spec fn entry_names_distinct(entries: Seq<(String, WampValue)>) -> bool {
    forall|i: int, j: int|
        0 <= i < j < entries.len() ==> (#[trigger] entries[i]).0@ != (#[trigger] entries[j]).0@
}

/// Whether no name occurs twice among named JSON values.
pub open spec fn view_names_distinct(entries: Seq<(Seq<char>, JsonView)>) -> bool {
    forall|i: int, j: int|
        0 <= i < j < entries.len() ==> (#[trigger] entries[i]).0 != (#[trigger] entries[j]).0
}

impl WampValue {
    /// What the value has from the map it came from: in every group of
    /// named values in it, at any depth, each name occurs once.
    pub open spec fn names_distinct(self) -> bool
        decreases self,
    {
        match self {
            WampValue::List(items) => forall|i: int|
                0 <= i < items@.len() ==> (#[trigger] items@[i]).names_distinct(),
            WampValue::Dict(entries) => entry_names_distinct(entries@) && forall|i: int|
                0 <= i < entries@.len() ==> (#[trigger] entries@[i]).1.names_distinct(),
            _ => true,
        }
    }
}

/// Whether in every group of named values in a JSON value, at any depth,
/// each name occurs once.
pub open spec fn json_names_distinct(value: JsonView) -> bool
    decreases value,
{
    match value {
        JsonView::Array(items) => forall|i: int|
            0 <= i < items.len() ==> json_names_distinct(#[trigger] items[i]),
        JsonView::Object(entries) => view_names_distinct(entries) && forall|i: int|
            0 <= i < entries.len() ==> json_names_distinct((#[trigger] entries[i]).1),
        _ => true,
    }
}

/// Whether each name occurs once in what was delivered: among the named
/// values and inside every value.
pub open spec fn delivery_names_distinct(
    args: Seq<WampValue>,
    kwargs: Seq<(String, WampValue)>,
) -> bool {
    &&& forall|i: int| 0 <= i < args.len() ==> (#[trigger] args[i]).names_distinct()
    &&& entry_names_distinct(kwargs)
    &&& forall|i: int| 0 <= i < kwargs.len() ==> (#[trigger] kwargs[i]).1.names_distinct()
}

/// Whether each name occurs once in what is shown: among the named values
/// and inside every value.
pub open spec fn output_names_distinct(output: OutputView) -> bool {
    &&& forall|i: int| 0 <= i < output.args.len() ==> json_names_distinct(#[trigger] output.args[i])
    &&& view_names_distinct(output.kwargs)
    &&& forall|i: int|
        0 <= i < output.kwargs.len() ==> json_names_distinct((#[trigger] output.kwargs[i]).1)
}

/// The JSON value that a delivered value is shown as. Integers, booleans
/// and strings map to themselves; a finite number maps to a number and any
/// other floating-point value to null; sequences and named values are
/// converted item by item; a binary payload maps to a fixed sentinel; a
/// value of any other kind maps to null.
pub open spec fn json_of(value: WampValue) -> JsonView
    decreases value,
{
    match value {
        WampValue::Int(i) => JsonView::Integer(i as int),
        WampValue::Str(s) => JsonView::Text(s@),
        WampValue::Bool(b) => JsonView::Bool(b),
        WampValue::Float(bits) => if is_finite_bits(bits) {
            JsonView::Float(bits)
        } else {
            JsonView::Null
        },
        WampValue::List(items) => JsonView::Array(
            Seq::new(
                items@.len(),
                |i: int|
                    if 0 <= i < items@.len() {
                        json_of(items@[i])
                    } else {
                        JsonView::Null
                    },
            ),
        ),
        WampValue::Dict(entries) => JsonView::Object(
            Seq::new(
                entries@.len(),
                |i: int|
                    if 0 <= i < entries@.len() {
                        (entries@[i].0@, json_of(entries@[i].1))
                    } else {
                        (Seq::empty(), JsonView::Null)
                    },
            ),
        ),
        WampValue::Bytes(_) => JsonView::Text(binary_sentinel()),
        WampValue::Other(_) => JsonView::Null,
    }
}

/// The JSON values that a list of delivered values is shown as.
pub open spec fn json_items_of(values: Seq<WampValue>) -> Seq<JsonView> {
    Seq::new(values.len(), |i: int| json_of(values[i]))
}

/// The named JSON values that a list of named delivered values is shown as:
/// the same names in the same order.
pub open spec fn json_entries_of(entries: Seq<(String, WampValue)>) -> Seq<(Seq<char>, JsonView)> {
    Seq::new(entries.len(), |i: int| (entries[i].0@, json_of(entries[i].1)))
}

/// What is shown for positional and named values.
pub open spec fn output_of(args: Seq<WampValue>, kwargs: Seq<(String, WampValue)>) -> OutputView {
    OutputView { args: json_items_of(args), kwargs: json_entries_of(kwargs) }
}

/// Converts a delivered value to the JSON value it is shown as.
pub fn wamp_value_to_serde(value: &WampValue) -> (json: JsonValue)
    ensures
        json@ == json_of(*value),
    decreases value,
{
    match value {
        WampValue::Int(i) => JsonValue::Integer(*i),
        WampValue::Str(s) => JsonValue::String(s.clone()),
        WampValue::Bool(b) => JsonValue::Bool(*b),
        WampValue::Float(bits) => {
            if (*bits >> 52) & 0x7ff != 0x7ff {
                JsonValue::Float(*bits)
            } else {
                JsonValue::Null
            }
        },
        WampValue::List(items) => {
            let converted: Vec<JsonValue> = convert_args(items);
            proof {
                assert(items_view(converted@).len() == json_items_of(items@).len());
                assert forall|j: int| 0 <= j < converted@.len() implies converted@[j].model()
                    == json_of(items@[j]) by {
                    assert(items_view(converted@)[j] == json_items_of(items@)[j]);
                }
            }
            let json = JsonValue::Array(converted);
            assert(json@->Array_0 =~= json_of(*value)->Array_0);
            json
        },
        WampValue::Dict(entries) => {
            let converted: Vec<(String, JsonValue)> = convert_kwargs(entries);
            proof {
                assert(entries_view(converted@).len() == json_entries_of(entries@).len());
                assert forall|j: int| 0 <= j < converted@.len() implies converted@[j].0@
                    == entries@[j].0@ && converted@[j].1.model() == json_of(entries@[j].1) by {
                    assert(entries_view(converted@)[j] == json_entries_of(entries@)[j]);
                }
            }
            let json = JsonValue::Object(converted);
            assert(json@->Object_0 =~= json_of(*value)->Object_0);
            json
        },
        WampValue::Bytes(_) => JsonValue::String(String::from_str("<binary>")),
        WampValue::Other(_) => JsonValue::Null,
    }
}

/// Converts a value delivered to an event or invocation handler; the
/// rendering is the same as for a call result.
pub fn wamp_async_value_to_serde(value: &WampValue) -> (json: JsonValue)
    ensures
        json@ == json_of(*value),
{
    wamp_value_to_serde(value)
}

/// Converts positional values in order.
pub fn convert_args(args: &Vec<WampValue>) -> (converted: Vec<JsonValue>)
    ensures
        items_view(converted@) == json_items_of(args@),
    decreases args,
{
    let mut converted: Vec<JsonValue> = Vec::new();
    let mut i: usize = 0;
    while i < args.len()
        invariant
            i <= args@.len(),
            converted@.len() == i,
            forall|j: int| 0 <= j < i ==> (#[trigger] converted@[j])@ == json_of(args@[j]),
        decreases args@.len() - i,
    {
        assert(decreases_to!(*args => args[i as int]));
        converted.push(wamp_value_to_serde(&args[i]));
        i = i + 1;
    }
    assert(items_view(converted@) =~= json_items_of(args@));
    converted
}

/// Converts named values, keeping each name.
pub fn convert_kwargs(kwargs: &Vec<(String, WampValue)>) -> (converted: Vec<(String, JsonValue)>)
    ensures
        entries_view(converted@) == json_entries_of(kwargs@),
    decreases kwargs,
{
    let mut converted: Vec<(String, JsonValue)> = Vec::new();
    let mut i: usize = 0;
    while i < kwargs.len()
        invariant
            i <= kwargs@.len(),
            converted@.len() == i,
            forall|j: int|
                0 <= j < i ==> (#[trigger] converted@[j]).0@ == kwargs@[j].0@ && converted@[j].1@
                    == json_of(kwargs@[j].1),
        decreases kwargs@.len() - i,
    {
        assert(decreases_to!(*kwargs => kwargs[i as int]));
        let key: String = kwargs[i].0.clone();
        let item: JsonValue = wamp_value_to_serde(&kwargs[i].1);
        converted.push((key, item));
        i = i + 1;
    }
    assert(entries_view(converted@) =~= json_entries_of(kwargs@));
    converted
}

/// Renders positional and named values.
pub fn render(args: &Vec<WampValue>, kwargs: &Vec<(String, WampValue)>) -> (output: CommandOutput)
    ensures
        output@ == output_of(args@, kwargs@),
{
    CommandOutput { args: convert_args(args), kwargs: convert_kwargs(kwargs) }
}

/// What is shown for a call result, whose positional and named values may
/// each be absent: an absent part is shown empty.
pub open spec fn result_output_of(
    args: Option<Vec<WampValue>>,
    kwargs: Option<Vec<(String, WampValue)>>,
) -> OutputView {
    OutputView {
        args: match args {
            Some(values) => json_items_of(values@),
            None => Seq::empty(),
        },
        kwargs: match kwargs {
            Some(entries) => json_entries_of(entries@),
            None => Seq::empty(),
        },
    }
}

/// Renders a call result.
pub fn render_result(
    args: &Option<Vec<WampValue>>,
    kwargs: &Option<Vec<(String, WampValue)>>,
) -> (output: CommandOutput)
    ensures
        output@ == result_output_of(*args, *kwargs),
{
    let converted_args: Vec<JsonValue> = match args {
        Some(values) => convert_args(values),
        None => Vec::new(),
    };
    let converted_kwargs: Vec<(String, JsonValue)> = match kwargs {
        Some(entries) => convert_kwargs(entries),
        None => Vec::new(),
    };
    let output = CommandOutput { args: converted_args, kwargs: converted_kwargs };
    assert(output@.args =~= result_output_of(*args, *kwargs).args);
    assert(output@.kwargs =~= result_output_of(*args, *kwargs).kwargs);
    output
}

/// Renders an event for display.
pub fn event_handler(event: &Event) -> (output: CommandOutput)
    ensures
        output@ == output_of(event.args@, event.kwargs@),
{
    render(&event.args, &event.kwargs)
}

/// Renders an invocation for display and answers it with its own values.
pub fn registration_handler(invocation: Invocation) -> (answer: (CommandOutput, Yield))
    ensures
        answer.0@ == output_of(invocation.args@, invocation.kwargs@),
        answer.1.args == invocation.args,
        answer.1.kwargs == invocation.kwargs,
{
    let output: CommandOutput = render(&invocation.args, &invocation.kwargs);
    (output, Yield { args: invocation.args, kwargs: invocation.kwargs })
}

/// Rendering keeps the shape of what was delivered: as many positional
/// values, as many named values, and every name in its place.
pub proof fn lemma_output_keeps_shape(args: Seq<WampValue>, kwargs: Seq<(String, WampValue)>)
    ensures
        output_of(args, kwargs).args.len() == args.len(),
        output_of(args, kwargs).kwargs.len() == kwargs.len(),
        forall|i: int|
            0 <= i < kwargs.len() ==> (#[trigger] output_of(args, kwargs).kwargs[i]).0
                == kwargs[i].0@,
{
}

/// Conversion keeps what a value has from the map it came from: where each
/// name occurs once in every group of named values of what was delivered,
/// the same holds of what is shown.
pub proof fn lemma_names_stay_distinct(value: WampValue)
    requires
        value.names_distinct(),
    ensures
        json_names_distinct(json_of(value)),
    decreases value,
{
    match value {
        WampValue::List(items) => {
            let shown = json_of(value)->Array_0;
            assert forall|i: int| 0 <= i < shown.len() implies json_names_distinct(
                #[trigger] shown[i],
            ) by {
                assert(items@[i].names_distinct());
                lemma_names_stay_distinct(items@[i]);
            }
        },
        WampValue::Dict(entries) => {
            let shown = json_of(value)->Object_0;
            assert forall|i: int| 0 <= i < shown.len() implies json_names_distinct(
                (#[trigger] shown[i]).1,
            ) by {
                assert(entries@[i].1.names_distinct());
                lemma_names_stay_distinct(entries@[i].1);
            }
            assert forall|i: int, j: int| 0 <= i < j < shown.len() implies (#[trigger] shown[i]).0
                != (#[trigger] shown[j]).0 by {
                assert(entries@[i].0@ != entries@[j].0@);
            }
        },
        _ => {},
    }
}

/// What is shown for a result, an event or an invocation names each value
/// once, at every depth, where what was delivered does.
pub proof fn lemma_output_names_stay_distinct(
    args: Seq<WampValue>,
    kwargs: Seq<(String, WampValue)>,
)
    requires
        delivery_names_distinct(args, kwargs),
    ensures
        output_names_distinct(output_of(args, kwargs)),
{
    let output = output_of(args, kwargs);
    assert forall|i: int| 0 <= i < output.args.len() implies json_names_distinct(
        #[trigger] output.args[i],
    ) by {
        assert(args[i].names_distinct());
        lemma_names_stay_distinct(args[i]);
    }
    assert forall|i: int| 0 <= i < output.kwargs.len() implies json_names_distinct(
        (#[trigger] output.kwargs[i]).1,
    ) by {
        assert(kwargs[i].1.names_distinct());
        lemma_names_stay_distinct(kwargs[i].1);
    }
    assert forall|i: int, j: int| 0 <= i < j < output.kwargs.len() implies (
    #[trigger] output.kwargs[i]).0 != (#[trigger] output.kwargs[j]).0 by {
        assert(kwargs[i].0@ != kwargs[j].0@);
    }
}

/// A number is shown as a number exactly if it is finite; infinities and
/// not-a-number are shown as null.
pub proof fn lemma_only_finite_numbers_shown(bits: u64)
    ensures
        json_of(WampValue::Float(bits)) == if is_finite_bits(bits) {
            JsonView::Float(bits)
        } else {
            JsonView::Null
        },
        is_finite_bits(bits) <==> (bits & 0x7ff0_0000_0000_0000) != 0x7ff0_0000_0000_0000,
{
    assert(((bits >> 52) & 0x7ff != 0x7ff) <==> ((bits & 0x7ff0_0000_0000_0000)
        != 0x7ff0_0000_0000_0000)) by (bit_vector);
}

} // verus!
