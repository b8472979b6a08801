//! The tokens that a turn took, added up from the messages that came in.

use crate::delegation::adapters::codex::process::{announces, same_text};
use crate::delegation::application::TokenUsage;
use crate::json::{as_text, as_unsigned, json_of, json_seq, member, Json};
use serde_json::Value;
use std::collections::VecDeque;
use vstd::prelude::*;

verus! {

/// Whether a message tells the cost of one model call of that turn.
pub open spec fn reports_usage(message: Json, turn_id: Seq<char>) -> bool {
    &&& announces(message, "thread/tokenUsage/updated"@)
    &&& message.member("params"@).member("turnId"@).as_text() == Some(turn_id)
}

/// The cost that such a message tells.
pub open spec fn reported_cost(message: Json) -> Json {
    message.member("params"@).member("tokenUsage"@).member("last"@)
}

/// The costs of the turn's model calls, in the order in which they were told.
pub open spec fn turn_costs(messages: Seq<Json>, turn_id: Seq<char>) -> Seq<Json>
    decreases messages.len(),
{
    if messages.len() == 0 {
        Seq::empty()
    } else {
        let earlier = turn_costs(messages.drop_last(), turn_id);
        if reports_usage(messages.last(), turn_id) {
            earlier.push(reported_cost(messages.last()))
        } else {
            earlier
        }
    }
}

/// The sum of one kind of token, where every call tells it.
pub open spec fn total(costs: Seq<Json>, field: Seq<char>) -> Option<nat>
    decreases costs.len(),
{
    if costs.len() == 0 {
        Some(0)
    } else {
        match (total(costs.drop_last(), field), costs.last().member(field).as_unsigned()) {
            (Some(sum), Some(tokens)) => Some(sum + tokens as nat),
            _ => None,
        }
    }
}

/// A sum as it fits into 64 bits: above them it wraps around.
pub open spec fn in_64_bits(sum: Option<nat>) -> Option<u64> {
    match sum {
        Some(sum) => Some((sum % 0x1_0000_0000_0000_0000) as u64),
        None => None,
    }
}

/// What the messages tell of the turn's cost; nothing, where none tells any.
pub open spec fn usage_of(messages: Seq<Json>, turn_id: Seq<char>) -> Option<TokenUsage> {
    let costs = turn_costs(messages, turn_id);
    if costs.len() == 0 {
        None
    } else {
        Some(
            TokenUsage {
                input_tokens: in_64_bits(total(costs, "inputTokens"@)),
                cached_input_tokens: in_64_bits(total(costs, "cachedInputTokens"@)),
                output_tokens: in_64_bits(total(costs, "outputTokens"@)),
            },
        )
    }
}

/// The trees of borrowed values, in order.
pub open spec fn borrowed_seq(values: Seq<&Value>) -> Seq<Json> {
    values.map_values(|value: &Value| json_of(*value))
}

/// Adds up one kind of token. A call that does not tell it leaves the sum open.
pub fn sum_tokens(calls: &[&Value], field: &str) -> (sum: Option<u64>)
    ensures
        sum == in_64_bits(total(borrowed_seq(calls@), field@)),
{
    let ghost costs = borrowed_seq(calls@);
    let mut sum: u64 = 0;
    let mut known: bool = true;
    let mut i: usize = 0;
    while i < calls.len()
        invariant
            i <= calls@.len(),
            costs == borrowed_seq(calls@),
            known == (total(costs.take(i as int), field@) is Some),
            known ==> sum == total(costs.take(i as int), field@)->Some_0
                % 0x1_0000_0000_0000_0000,
        decreases calls@.len() - i,
    {
        proof {
            assert(costs.take(i as int + 1).drop_last() =~= costs.take(i as int));
            assert(costs.take(i as int + 1).last() == json_of(*calls@[i as int]));
        }
        match as_unsigned(member(calls[i], field)) {
            Some(tokens) => {
                sum = sum.wrapping_add(tokens);
            },
            None => {
                known = false;
            },
        }
        i = i + 1;
    }
    assert(costs.take(i as int) =~= costs);
    if known {
        Some(sum)
    } else {
        None
    }
}

/// Adds up what the messages tell of the turn's model calls.
pub fn token_usage(notifications: &VecDeque<Value>, turn_id: &str) -> (usage: Option<TokenUsage>)
    ensures
        usage == usage_of(json_seq(notifications@), turn_id@),
{
    let ghost messages = json_seq(notifications@);
    let mut calls: Vec<&Value> = Vec::new();
    let mut i: usize = 0;
    while i < notifications.len()
        invariant
            i <= notifications@.len(),
            messages == json_seq(notifications@),
            borrowed_seq(calls@) == turn_costs(messages.take(i as int), turn_id@),
        decreases notifications@.len() - i,
    {
        proof {
            assert(messages.take(i as int + 1).drop_last() =~= messages.take(i as int));
            assert(messages.take(i as int + 1).last() == json_of(notifications@[i as int]));
        }
        let notification: &Value = &notifications[i];
        let update: bool = match as_text(member(notification, "method")) {
            Some(method) => same_text(method, "thread/tokenUsage/updated"),
            None => false,
        };
        let of_turn: bool = match as_text(member(member(notification, "params"), "turnId")) {
            Some(id) => same_text(id, turn_id),
            None => false,
        };
        if update && of_turn {
            let cost: &Value = member(
                member(member(notification, "params"), "tokenUsage"),
                "last",
            );
            let ghost earlier = calls@;
            calls.push(cost);
            assert(borrowed_seq(calls@) =~= borrowed_seq(earlier).push(json_of(*cost)));
        }
        i = i + 1;
    }
    assert(messages.take(i as int) =~= messages);
    if calls.len() == 0 {
        return None;
    }
    Some(
        TokenUsage {
            input_tokens: sum_tokens(calls.as_slice(), "inputTokens"),
            cached_input_tokens: sum_tokens(calls.as_slice(), "cachedInputTokens"),
            output_tokens: sum_tokens(calls.as_slice(), "outputTokens"),
        },
    )
}

/// The costs told in two stretches of messages are those of the first, then those
/// of the second: every model call of the turn counts, once.
pub proof fn costs_of_two_stretches(one: Seq<Json>, other: Seq<Json>, turn_id: Seq<char>)
    ensures
        turn_costs(one + other, turn_id) == turn_costs(one, turn_id) + turn_costs(other, turn_id),
    decreases other.len(),
{
    if other.len() == 0 {
        assert(one + other =~= one);
        assert(turn_costs(one, turn_id) + turn_costs(other, turn_id) =~= turn_costs(one, turn_id));
    } else {
        costs_of_two_stretches(one, other.drop_last(), turn_id);
        assert((one + other).drop_last() =~= one + other.drop_last());
        assert(turn_costs(one + other, turn_id) =~= turn_costs(one, turn_id) + turn_costs(
            other,
            turn_id,
        ));
    }
}

/// What an earlier turn of the thread took is left out: a message that tells of
/// another turn changes nothing, wherever it stands.
pub proof fn other_turns_do_not_count(
    before: Seq<Json>,
    message: Json,
    after: Seq<Json>,
    turn_id: Seq<char>,
)
    requires
        !reports_usage(message, turn_id),
    ensures
        usage_of(before.push(message) + after, turn_id) == usage_of(before + after, turn_id),
{
    costs_of_two_stretches(before.push(message), after, turn_id);
    costs_of_two_stretches(before, after, turn_id);
    assert(before.push(message).drop_last() =~= before);
}

/// The sum over two stretches of calls is the sum of the two sums.
pub proof fn totals_add_up(one: Seq<Json>, other: Seq<Json>, field: Seq<char>)
    ensures
        total(one + other, field) == (match (total(one, field), total(other, field)) {
            (Some(a), Some(b)) => Some(a + b),
            _ => None,
        }),
    decreases other.len(),
{
    if other.len() == 0 {
        assert(one + other =~= one);
    } else {
        totals_add_up(one, other.drop_last(), field);
        assert((one + other).drop_last() =~= one + other.drop_last());
    }
}

/// One kind of token, over two stretches of messages: where both tell it, the sum, as
/// it fits into 64 bits; where one leaves it open, it stays open.
pub open spec fn is_sum_of(sum: Option<u64>, one: Option<u64>, other: Option<u64>) -> bool {
    match (one, other) {
        (Some(one), Some(other)) => sum is Some && (sum->Some_0 == one + other || sum->Some_0
            == one + other - 0x1_0000_0000_0000_0000),
        _ => sum is None,
    }
}

proof fn lemma_sum_of_totals(one: Seq<Json>, other: Seq<Json>, field: Seq<char>)
    ensures
        is_sum_of(
            in_64_bits(total(one + other, field)),
            in_64_bits(total(one, field)),
            in_64_bits(total(other, field)),
        ),
{
    totals_add_up(one, other, field);
    if total(one, field) is Some && total(other, field) is Some {
        let a = total(one, field)->Some_0;
        let b = total(other, field)->Some_0;
        let m = 0x1_0000_0000_0000_0000nat;
        assert((a + b) % m == a % m + b % m || (a + b) % m == a % m + b % m - m);
    }
}

/// The usage that is reported adds up, for each kind of token: of two stretches of
/// messages that both tell of the turn, every field is the sum of the two; a stretch
/// that tells nothing of it changes nothing.
pub proof fn usage_adds_up_over_stretches(
    one: VecDeque<Value>,
    other: VecDeque<Value>,
    all: VecDeque<Value>,
    turn_id: &str,
    one_usage: Option<TokenUsage>,
    other_usage: Option<TokenUsage>,
    usage: Option<TokenUsage>,
)
    requires
        all@ == one@ + other@,
        call_ensures(token_usage, (&one, turn_id), one_usage),
        call_ensures(token_usage, (&other, turn_id), other_usage),
        call_ensures(token_usage, (&all, turn_id), usage),
    ensures
        one_usage is None ==> usage == other_usage,
        other_usage is None ==> usage == one_usage,
        one_usage is Some && other_usage is Some ==> {
            &&& usage is Some
            &&& is_sum_of(
                usage->Some_0.input_tokens,
                one_usage->Some_0.input_tokens,
                other_usage->Some_0.input_tokens,
            )
            &&& is_sum_of(
                usage->Some_0.cached_input_tokens,
                one_usage->Some_0.cached_input_tokens,
                other_usage->Some_0.cached_input_tokens,
            )
            &&& is_sum_of(
                usage->Some_0.output_tokens,
                one_usage->Some_0.output_tokens,
                other_usage->Some_0.output_tokens,
            )
        },
{
    assert(json_seq(all@) =~= json_seq(one@) + json_seq(other@));
    costs_of_two_stretches(json_seq(one@), json_seq(other@), turn_id@);
    let a = turn_costs(json_seq(one@), turn_id@);
    let b = turn_costs(json_seq(other@), turn_id@);
    if a.len() == 0 {
        assert(a + b =~= b);
    } else if b.len() == 0 {
        assert(a + b =~= a);
    } else {
        lemma_sum_of_totals(a, b, "inputTokens"@);
        lemma_sum_of_totals(a, b, "cachedInputTokens"@);
        lemma_sum_of_totals(a, b, "outputTokens"@);
    }
}

/// What one message tells: it counts exactly if it is an update on the usage of the
/// turn, and then each field is the number in the member of that name, where there is
/// one. Without any message there is no usage.
pub proof fn each_update_tells_its_own_numbers(
    none: VecDeque<Value>,
    single: VecDeque<Value>,
    message: Value,
    turn_id: &str,
    no_usage: Option<TokenUsage>,
    usage: Option<TokenUsage>,
)
    requires
        none@ == Seq::<Value>::empty(),
        single@ == seq![message],
        call_ensures(token_usage, (&none, turn_id), no_usage),
        call_ensures(token_usage, (&single, turn_id), usage),
    ensures
        no_usage is None,
        usage is Some <==> {
            &&& json_of(message).member("method"@) == Json::Text("thread/tokenUsage/updated"@)
            &&& json_of(message).member("params"@).member("turnId"@) == Json::Text(turn_id@)
        },
        usage is Some ==> ({
            let last = json_of(message).member("params"@).member("tokenUsage"@).member("last"@);
            let usage = usage->Some_0;
            &&& match last.member("inputTokens"@) {
                Json::Unsigned(tokens) => usage.input_tokens == Some(tokens),
                _ => usage.input_tokens is None,
            }
            &&& match last.member("cachedInputTokens"@) {
                Json::Unsigned(tokens) => usage.cached_input_tokens == Some(tokens),
                _ => usage.cached_input_tokens is None,
            }
            &&& match last.member("outputTokens"@) {
                Json::Unsigned(tokens) => usage.output_tokens == Some(tokens),
                _ => usage.output_tokens is None,
            }
        }),
{
    let messages = json_seq(single@);
    assert(messages =~= seq![json_of(message)]);
    assert(messages.drop_last() =~= Seq::<Json>::empty());
    reveal_with_fuel(turn_costs, 2);
    let costs = turn_costs(messages, turn_id@);
    if usage is Some {
        assert(costs =~= seq![reported_cost(json_of(message))]);
        assert(costs.drop_last() =~= Seq::<Json>::empty());
        reveal_with_fuel(total, 2);
    }
}

/// A sum over some calls, one more call, and no call at all: the sum starts from zero,
/// takes in the number of every call once, and is left open by a call without one.
pub proof fn sums_take_in_every_call(
    calls: &[&Value],
    call: &Value,
    more: &[&Value],
    none: &[&Value],
    field: &str,
    sum: Option<u64>,
    more_sum: Option<u64>,
    no_sum: Option<u64>,
)
    requires
        more@ == calls@.push(call),
        none@.len() == 0,
        call_ensures(sum_tokens, (calls, field), sum),
        call_ensures(sum_tokens, (more, field), more_sum),
        call_ensures(sum_tokens, (none, field), no_sum),
    ensures
        no_sum == Some(0u64),
        is_sum_of(
            more_sum,
            sum,
            match json_of(*call).member(field@) {
                Json::Unsigned(tokens) => Some(tokens),
                _ => None,
            },
        ),
{
    let costs = borrowed_seq(calls@);
    assert(borrowed_seq(more@) =~= costs.push(json_of(*call)));
    assert(costs.push(json_of(*call)).drop_last() =~= costs);
    assert(borrowed_seq(none@) =~= Seq::<Json>::empty());
}

} // verus!
