//! What holds of listed prices.

use vstd::prelude::*;

use crate::cost::{
    cost_text, listed_rates, log_text, no_rates, rates_by_id, rates_of, token_counts, CallCostView,
    GatewayModelView, ModelRatesView, OpenAiUsage,
};
use crate::text::decimal;

verus! {

/// The rates of a model are those of its last listing.
pub proof fn law_the_last_listing_counts(models: Seq<GatewayModelView>, i: int)
    requires
        0 <= i < models.len(),
        forall|j: int| i < j < models.len() ==> (#[trigger] models[j]).id != models[i].id,
    ensures
        rates_of(rates_by_id(models), models[i].id) == listed_rates(models[i]),
    decreases models.len(),
{
    if i < models.len() - 1 {
        let front = models.drop_last();
        assert(models[models.len() - 1].id != models[i].id);
        assert forall|j: int| i < j < front.len() implies (#[trigger] front[j]).id
            != front[i].id by {
            assert(models[j].id != models[i].id);
        }
        law_the_last_listing_counts(front, i);
    }
}

/// A model that is not listed has no rates.
pub proof fn law_an_unlisted_model_has_no_rates(models: Seq<GatewayModelView>, id: Seq<char>)
    requires
        forall|j: int| 0 <= j < models.len() ==> (#[trigger] models[j]).id != id,
    ensures
        rates_of(rates_by_id(models), id) == no_rates(),
    decreases models.len(),
{
    if models.len() > 0 {
        let front = models.drop_last();
        assert(models[models.len() - 1].id != id);
        assert forall|j: int| 0 <= j < front.len() implies (#[trigger] front[j]).id != id by {
            assert(models[j].id != id);
        }
        law_an_unlisted_model_has_no_rates(front, id);
    }
}

/// The rates of a listing are the four prices of its first provider, whatever other providers
/// list; without a provider, or where the first lists no prices, there are none.
pub proof fn law_the_first_provider_counts(model: GatewayModelView, rates: ModelRatesView)
    ensures
        model.providers.len() > 0 && model.providers[0] == Some(rates) ==> {
            &&& listed_rates(model).input == rates.input
            &&& listed_rates(model).output == rates.output
            &&& listed_rates(model).cache_read == rates.cache_read
            &&& listed_rates(model).cache_write == rates.cache_write
        },
        model.providers.len() == 0 || model.providers[0] is None ==> {
            &&& listed_rates(model).input is None
            &&& listed_rates(model).output is None
            &&& listed_rates(model).cache_read is None
            &&& listed_rates(model).cache_write is None
        },
        no_rates().input is None && no_rates().output is None && no_rates().cache_read is None
            && no_rates().cache_write is None,
{
}

/// The rates under an id are those that were set under it last, and setting them leaves those of
/// other models alone.
pub proof fn law_rates_are_what_was_set(
    table: Map<Seq<char>, ModelRatesView>,
    id: Seq<char>,
    rates: ModelRatesView,
    other: Seq<char>,
)
    ensures
        rates_of(table.insert(id, rates), id) == rates,
        other != id ==> rates_of(table.insert(id, rates), other) == rates_of(table, other),
        !table.contains_key(other) ==> rates_of(table, other).input is None && rates_of(
            table,
            other,
        ).output is None && rates_of(table, other).cache_read is None && rates_of(
            table,
            other,
        ).cache_write is None,
{
}

/// A usage is billed by its own counts: the prompt as input, the completion as output, and the
/// cache by its details, or not at all where it has none.
pub proof fn law_a_usage_is_billed_by_its_counts(usage: OpenAiUsage)
    ensures
        token_counts(usage).input == usage.prompt_tokens,
        token_counts(usage).output == usage.completion_tokens,
        usage.prompt_tokens_details matches Some(d) ==> token_counts(usage).cache_read
            == d.cached_tokens && token_counts(usage).cache_write == d.cache_write_tokens,
        usage.prompt_tokens_details is None ==> token_counts(usage).cache_read == 0 && token_counts(
            usage,
        ).cache_write == 0,
{
}

/// A cost is reported with each of its counts in decimal under its name, and its total. What is
/// logged is the report and the model.
pub proof fn law_what_a_cost_report_says(cost: CallCostView, model: Seq<char>)
    ensures
        cost_text(cost) == "tokens in="@ + decimal(cost.tokens.input as nat) + "|cache_read="@
            + decimal(cost.tokens.cache_read as nat) + "|cache_write="@ + decimal(
            cost.tokens.cache_write as nat,
        ) + " out="@ + decimal(cost.tokens.output as nat) + " cost $"@ + cost.total_cost.text,
        log_text(cost, model) == "[cost] "@ + cost_text(cost) + " model="@ + model,
{
}

} // verus!
