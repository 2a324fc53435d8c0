//! Requests assembled from a command's tokens.

use crate::config::{CallConfig, PublishConfig, SubscribeConfig};
use crate::literal::{key_value_of, literal_of, parse_arg, parse_key_value, Literal, ParsedArg};
use vstd::prelude::*;

verus! {

/// A request as the session endpoint takes it: the procedure or topic, the
/// positional arguments in order, and the keyword arguments and options in
/// the order in which they are attached. The endpoint keeps one value for a
/// name: where a name is attached more than once, its last pair decides
/// (see [`named_values`]).
#[derive(Debug, PartialEq, Eq)]
pub struct Request {
    pub uri: String,
    pub args: Vec<ParsedArg>,
    pub kwargs: Vec<(String, ParsedArg)>,
    pub options: Vec<(String, ParsedArg)>,
}

/// What a [`Request`] stands for.
pub struct RequestView {
    pub uri: Seq<char>,
    pub args: Seq<Literal>,
    pub kwargs: Seq<(Seq<char>, Literal)>,
    pub options: Seq<(Seq<char>, Literal)>,
}

/// What a list of typed values stands for.
pub open spec fn args_view(args: Seq<ParsedArg>) -> Seq<Literal> {
    Seq::new(args.len(), |i: int| args[i]@)
}

/// What a list of keyed typed values stands for.
pub open spec fn pairs_view(pairs: Seq<(String, ParsedArg)>) -> Seq<(Seq<char>, Literal)> {
    Seq::new(pairs.len(), |i: int| (pairs[i].0@, pairs[i].1@))
}

/// What a list of pairs amounts to once every pair is attached in order:
/// each name with the value of the last pair that has it.
pub open spec fn named_values(pairs: Seq<(Seq<char>, Literal)>) -> Map<Seq<char>, Literal>
    decreases pairs.len(),
{
    if pairs.len() == 0 {
        Map::empty()
    } else {
        named_values(pairs.drop_last()).insert(pairs.last().0, pairs.last().1)
    }
}

impl RequestView {
    /// The keyword arguments that the request amounts to.
    pub open spec fn keyword_arguments(self) -> Map<Seq<char>, Literal> {
        named_values(self.kwargs)
    }

    /// The options that the request amounts to.
    pub open spec fn option_values(self) -> Map<Seq<char>, Literal> {
        named_values(self.options)
    }
}

impl View for Request {
    type V = RequestView;

    open spec fn view(&self) -> RequestView {
        RequestView {
            uri: self.uri@,
            args: args_view(self.args@),
            kwargs: pairs_view(self.kwargs@),
            options: pairs_view(self.options@),
        }
    }
}

/// The typed value of each token, in order.
pub open spec fn literals_of(tokens: Seq<String>) -> Seq<Literal> {
    Seq::new(tokens.len(), |i: int| literal_of(tokens[i]@))
}

/// The key and typed value of each `key=value` token, in order; tokens
/// without an equals sign are passed over.
pub open spec fn pairs_of(tokens: Seq<String>) -> Seq<(Seq<char>, Literal)>
    decreases tokens.len(),
{
    if tokens.len() == 0 {
        Seq::empty()
    } else {
        match key_value_of(tokens.last()@) {
            Some(pair) => pairs_of(tokens.drop_last()).push(pair),
            None => pairs_of(tokens.drop_last()),
        }
    }
}

/// The option that asks the broker to acknowledge a publish.
pub open spec fn acknowledge_option() -> (Seq<char>, Literal) {
    ("acknowledge"@, Literal::Boolean(true))
}

/// Reads every token as a typed value.
pub fn parse_args(tokens: &Vec<String>) -> (args: Vec<ParsedArg>)
    ensures
        args_view(args@) == literals_of(tokens@),
{
    let mut args: Vec<ParsedArg> = Vec::new();
    let mut i: usize = 0;
    while i < tokens.len()
        invariant
            i <= tokens@.len(),
            args@.len() == i,
            forall|j: int| 0 <= j < i ==> (#[trigger] args@[j])@ == literal_of(tokens@[j]@),
        decreases tokens@.len() - i,
    {
        args.push(parse_arg(tokens[i].as_str()));
        i = i + 1;
    }
    assert(args_view(args@) =~= literals_of(tokens@));
    args
}

/// Reads every `key=value` token as a keyed typed value and passes over the
/// tokens without an equals sign.
pub fn parse_pairs(tokens: &Vec<String>) -> (pairs: Vec<(String, ParsedArg)>)
    ensures
        pairs_view(pairs@) == pairs_of(tokens@),
{
    let mut pairs: Vec<(String, ParsedArg)> = Vec::new();
    let mut i: usize = 0;
    while i < tokens.len()
        invariant
            i <= tokens@.len(),
            pairs_view(pairs@) == pairs_of(tokens@.take(i as int)),
        decreases tokens@.len() - i,
    {
        proof {
            assert(tokens@.take(i + 1).drop_last() =~= tokens@.take(i as int));
        }
        let ghost before = pairs@;
        match parse_key_value(tokens[i].as_str()) {
            Some(pair) => {
                pairs.push(pair);
                assert(pairs_view(pairs@) =~= pairs_view(before).push((pair.0@, pair.1@)));
            },
            None => {},
        }
        i = i + 1;
    }
    assert(tokens@.take(i as int) =~= tokens@);
    pairs
}

/// Builds the request of a call command: its procedure, every positional
/// token as a typed value, and every well-formed keyword and option token
/// as a keyed typed value.
pub fn build_call_request(config: &CallConfig) -> (request: Request)
    ensures
        request@ == (RequestView {
            uri: config.procedure@,
            args: literals_of(config.args@),
            kwargs: pairs_of(config.kwargs@),
            options: pairs_of(config.options@),
        }),
{
    Request {
        uri: config.procedure.clone(),
        args: parse_args(&config.args),
        kwargs: parse_pairs(&config.kwargs),
        options: parse_pairs(&config.options),
    }
}

/// Builds the request of a publish command as that of a call is built, and
/// attaches the acknowledge option last where acknowledgement is asked for.
pub fn build_publish_request(config: &PublishConfig) -> (request: Request)
    ensures
        request@ == (RequestView {
            uri: config.topic@,
            args: literals_of(config.args@),
            kwargs: pairs_of(config.kwargs@),
            options: if config.acknowledge {
                pairs_of(config.options@).push(acknowledge_option())
            } else {
                pairs_of(config.options@)
            },
        }),
{
    let mut options: Vec<(String, ParsedArg)> = parse_pairs(&config.options);
    if config.acknowledge {
        let ghost before = options@;
        options.push((String::from_str("acknowledge"), ParsedArg::Boolean(true)));
        assert(pairs_view(options@) =~= pairs_view(before).push(acknowledge_option()));
    }
    Request {
        uri: config.topic.clone(),
        args: parse_args(&config.args),
        kwargs: parse_pairs(&config.kwargs),
        options,
    }
}

/// Builds the request of a subscribe command: its topic and nothing else.
pub fn build_subscribe_request(config: &SubscribeConfig) -> (request: Request)
    ensures
        request@ == (RequestView {
            uri: config.topic@,
            args: Seq::empty(),
            kwargs: Seq::empty(),
            options: Seq::empty(),
        }),
{
    let request = Request {
        uri: config.topic.clone(),
        args: Vec::new(),
        kwargs: Vec::new(),
        options: Vec::new(),
    };
    assert(request@.args =~= Seq::empty());
    assert(request@.kwargs =~= Seq::empty());
    assert(request@.options =~= Seq::empty());
    request
}

/// Positional arguments keep their number and order: the request has one
/// typed value per token.
pub proof fn lemma_one_argument_per_token(tokens: Seq<String>, i: int)
    requires
        0 <= i < tokens.len(),
    ensures
        literals_of(tokens).len() == tokens.len(),
        literals_of(tokens)[i] == literal_of(tokens[i]@),
{
}

/// A token gives a pair exactly if it holds an equals sign, so the request
/// has at most one pair per token, and none for a list of tokens without
/// equals signs.
pub proof fn lemma_pairs_skip_malformed(tokens: Seq<String>)
    ensures
        pairs_of(tokens).len() <= tokens.len(),
        (forall|i: int| 0 <= i < tokens.len() ==> !(#[trigger] tokens[i])@.contains('='))
            ==> pairs_of(tokens).len() == 0,
        (forall|i: int| 0 <= i < tokens.len() ==> (#[trigger] tokens[i])@.contains('='))
            ==> pairs_of(tokens).len() == tokens.len(),
    decreases tokens.len(),
{
    if tokens.len() > 0 {
        lemma_pairs_skip_malformed(tokens.drop_last());
        crate::literal::lemma_pair_needs_equals(tokens.last()@);
        assert(forall|i: int|
            0 <= i < tokens.drop_last().len() ==> tokens.drop_last()[i] == tokens[i]);
    }
}

/// Of a name that is attached more than once the last pair decides: a pair
/// behind which no pair has the same name gives the name its value.
pub proof fn lemma_last_pair_decides(pairs: Seq<(Seq<char>, Literal)>, i: int)
    requires
        0 <= i < pairs.len(),
        forall|j: int| i < j < pairs.len() ==> (#[trigger] pairs[j]).0 != pairs[i].0,
    ensures
        named_values(pairs).dom().contains(pairs[i].0),
        named_values(pairs)[pairs[i].0] == pairs[i].1,
    decreases pairs.len(),
{
    if i < pairs.len() - 1 {
        assert(pairs.last() == pairs[pairs.len() - 1]);
        assert(pairs.drop_last()[i] == pairs[i]);
        assert forall|j: int| i < j < pairs.drop_last().len() implies (
        #[trigger] pairs.drop_last()[j]).0 != pairs.drop_last()[i].0 by {
            assert(pairs.drop_last()[j] == pairs[j]);
        }
        lemma_last_pair_decides(pairs.drop_last(), i);
    }
}

/// A name has a value exactly if some pair has the name.
pub proof fn lemma_named_values_names(pairs: Seq<(Seq<char>, Literal)>, name: Seq<char>)
    ensures
        named_values(pairs).dom().contains(name) <==> exists|i: int|
            0 <= i < pairs.len() && (#[trigger] pairs[i]).0 == name,
    decreases pairs.len(),
{
    if pairs.len() > 0 {
        let earlier = pairs.drop_last();
        lemma_named_values_names(earlier, name);
        if named_values(pairs).dom().contains(name) {
            if pairs.last().0 == name {
                assert(pairs[pairs.len() - 1].0 == name);
            } else {
                let i = choose|i: int| 0 <= i < earlier.len() && (#[trigger] earlier[i]).0 == name;
                assert(pairs[i].0 == name);
            }
        }
        if exists|i: int| 0 <= i < pairs.len() && (#[trigger] pairs[i]).0 == name {
            let i = choose|i: int| 0 <= i < pairs.len() && (#[trigger] pairs[i]).0 == name;
            if i < pairs.len() - 1 {
                assert(earlier[i].0 == name);
            }
        }
    }
}

} // verus!
