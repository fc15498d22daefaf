//! What a call costs: token counts, listed prices and the line that reports them.
//!
//! Prices and totals are floats, which the library carries and does not compute with: a price is
//! kept as the text that the gateway lists, a total as [`Dollars`].

use vstd::prelude::*;

use crate::entries::{entry_map, lemma_entry_map_keys, lemma_entry_map_last};
use crate::text::{decimal, push_decimal};

verus! {

/// How the prompt's tokens met the cache.
#[derive(Clone, Copy, Debug, PartialEq, Eq, Structural)]
pub struct OpenAiPromptTokenDetails {
    pub cached_tokens: u64,
    pub cache_write_tokens: u64,
}

/// The usage that the gateway reports for a call.
#[derive(Clone, Copy, Debug, PartialEq, Eq, Structural)]
pub struct OpenAiUsage {
    pub prompt_tokens: u64,
    pub completion_tokens: u64,
    pub prompt_tokens_details: Option<OpenAiPromptTokenDetails>,
}

/// The four counts that a call is billed by.
#[derive(Clone, Copy, Debug, PartialEq, Eq, Structural)]
pub struct TokenCounts {
    pub input: u64,
    pub output: u64,
    pub cache_read: u64,
    pub cache_write: u64,
}

/// The counts of a usage: without details nothing met the cache.
pub open spec fn token_counts(usage: OpenAiUsage) -> TokenCounts {
    TokenCounts {
        input: usage.prompt_tokens,
        output: usage.completion_tokens,
        cache_read: match usage.prompt_tokens_details {
            Some(d) => d.cached_tokens,
            None => 0,
        },
        cache_write: match usage.prompt_tokens_details {
            Some(d) => d.cache_write_tokens,
            None => 0,
        },
    }
}

impl OpenAiUsage {
    pub fn counts(&self) -> (counts: TokenCounts)
        ensures
            counts == token_counts(*self),
    {
        let (cache_read, cache_write): (u64, u64) = match self.prompt_tokens_details {
            Some(d) => (d.cached_tokens, d.cache_write_tokens),
            None => (0, 0),
        };
        TokenCounts {
            input: self.prompt_tokens,
            output: self.completion_tokens,
            cache_read,
            cache_write,
        }
    }
}

/// An amount of dollars: the bits of the double that it was computed as, and the text of it with
/// six decimals.
#[derive(Debug)]
pub struct Dollars {
    pub bits: u64,
    pub text: String,
}

pub struct DollarsView {
    pub bits: u64,
    pub text: Seq<char>,
}

impl DeepView for Dollars {
    type V = DollarsView;

    open spec fn deep_view(&self) -> DollarsView {
        DollarsView { bits: self.bits, text: self.text@ }
    }
}

impl Clone for Dollars {
    fn clone(&self) -> (copy: Self)
        ensures
            copy.deep_view() == self.deep_view(),
    {
        Dollars { bits: self.bits, text: self.text.clone() }
    }
}

/// What one call used and cost.
#[derive(Debug)]
pub struct CallCost {
    pub input_tokens: u64,
    pub output_tokens: u64,
    pub cache_read_tokens: u64,
    pub cache_write_tokens: u64,
    pub total_cost: Dollars,
}

pub struct CallCostView {
    pub tokens: TokenCounts,
    pub total_cost: DollarsView,
}

impl DeepView for CallCost {
    type V = CallCostView;

    open spec fn deep_view(&self) -> CallCostView {
        CallCostView {
            tokens: TokenCounts {
                input: self.input_tokens,
                output: self.output_tokens,
                cache_read: self.cache_read_tokens,
                cache_write: self.cache_write_tokens,
            },
            total_cost: self.total_cost.deep_view(),
        }
    }
}

impl Clone for CallCost {
    fn clone(&self) -> (copy: Self)
        ensures
            copy.deep_view() == self.deep_view(),
    {
        CallCost {
            input_tokens: self.input_tokens,
            output_tokens: self.output_tokens,
            cache_read_tokens: self.cache_read_tokens,
            cache_write_tokens: self.cache_write_tokens,
            total_cost: self.total_cost.clone(),
        }
    }
}

impl Default for CallCost {
    fn default() -> (cost: Self)
        ensures
            cost.deep_view() == (CallCostView {
                tokens: TokenCounts { input: 0, output: 0, cache_read: 0, cache_write: 0 },
                total_cost: DollarsView { bits: 0, text: "0.000000"@ },
            }),
    {
        CallCost {
            input_tokens: 0,
            output_tokens: 0,
            cache_read_tokens: 0,
            cache_write_tokens: 0,
            total_cost: Dollars { bits: 0, text: "0.000000".to_owned() },
        }
    }
}

/// The line that reports a cost.
pub open spec fn cost_text(cost: CallCostView) -> Seq<char> {
    "tokens in="@ + decimal(cost.tokens.input as nat) + "|cache_read="@ + decimal(
        cost.tokens.cache_read as nat,
    ) + "|cache_write="@ + decimal(cost.tokens.cache_write as nat) + " out="@ + decimal(
        cost.tokens.output as nat,
    ) + " cost $"@ + cost.total_cost.text
}

/// The line that is logged for a call of a model.
pub open spec fn log_text(cost: CallCostView, model: Seq<char>) -> Seq<char> {
    "[cost] "@ + cost_text(cost) + " model="@ + model
}

impl CallCost {
    /// The cost of a call, from its usage and from the total that the counts of the usage come to
    /// at the rates of the model.
    pub fn compute(usage: &OpenAiUsage, total_cost: Dollars) -> (cost: Self)
        ensures
            cost.deep_view() == (CallCostView {
                tokens: token_counts(*usage),
                total_cost: total_cost.deep_view(),
            }),
            cost.input_tokens == usage.prompt_tokens,
            cost.output_tokens == usage.completion_tokens,
            cost.total_cost == total_cost,
    {
        let counts = usage.counts();
        CallCost {
            input_tokens: counts.input,
            output_tokens: counts.output,
            cache_read_tokens: counts.cache_read,
            cache_write_tokens: counts.cache_write,
            total_cost,
        }
    }

    pub fn format(&self) -> (text: String)
        ensures
            text@ == cost_text(self.deep_view()),
    {
        let mut out = "tokens in=".to_owned();
        push_decimal(&mut out, self.input_tokens);
        out.append("|cache_read=");
        push_decimal(&mut out, self.cache_read_tokens);
        out.append("|cache_write=");
        push_decimal(&mut out, self.cache_write_tokens);
        out.append(" out=");
        push_decimal(&mut out, self.output_tokens);
        out.append(" cost $");
        out.append(self.total_cost.text.as_str());
        out
    }

    /// The line that is logged for a call of a model.
    pub fn log_line(&self, model: &str) -> (line: String)
        ensures
            line@ == log_text(self.deep_view(), model@),
    {
        let mut out = "[cost] ".to_owned();
        out.append(self.format().as_str());
        out.append(" model=");
        out.append(model);
        out
    }
}

/// Prices per token as the gateway lists them, each a decimal number or missing.
#[derive(Debug)]
pub struct ModelRates {
    pub input: Option<String>,
    pub output: Option<String>,
    pub cache_read: Option<String>,
    pub cache_write: Option<String>,
}

pub struct ModelRatesView {
    pub input: Option<Seq<char>>,
    pub output: Option<Seq<char>>,
    pub cache_read: Option<Seq<char>>,
    pub cache_write: Option<Seq<char>>,
}

impl DeepView for ModelRates {
    type V = ModelRatesView;

    open spec fn deep_view(&self) -> ModelRatesView {
        ModelRatesView {
            input: self.input.deep_view(),
            output: self.output.deep_view(),
            cache_read: self.cache_read.deep_view(),
            cache_write: self.cache_write.deep_view(),
        }
    }
}

/// No listed price.
pub open spec fn no_rates() -> ModelRatesView {
    ModelRatesView { input: None, output: None, cache_read: None, cache_write: None }
}

impl Default for ModelRates {
    fn default() -> (rates: Self)
        ensures
            rates.deep_view() == no_rates(),
    {
        ModelRates { input: None, output: None, cache_read: None, cache_write: None }
    }
}

impl Clone for ModelRates {
    fn clone(&self) -> (copy: Self)
        ensures
            copy.deep_view() == self.deep_view(),
    {
        ModelRates {
            input: self.input.clone(),
            output: self.output.clone(),
            cache_read: self.cache_read.clone(),
            cache_write: self.cache_write.clone(),
        }
    }
}

/// The prices of a provider.
#[derive(Debug)]
pub struct GatewayPricing {
    pub prompt: Option<String>,
    pub completion: Option<String>,
    pub input_cache_read: Option<String>,
    pub input_cache_write: Option<String>,
}

/// A provider of a model.
#[derive(Debug)]
pub struct GatewayProvider {
    pub pricing: Option<GatewayPricing>,
}

/// A model that the gateway lists.
#[derive(Debug)]
pub struct GatewayModel {
    pub id: String,
    pub providers: Vec<GatewayProvider>,
}

pub struct GatewayModelView {
    pub id: Seq<char>,
    pub providers: Seq<Option<ModelRatesView>>,
}

impl DeepView for GatewayPricing {
    type V = ModelRatesView;

    open spec fn deep_view(&self) -> ModelRatesView {
        ModelRatesView {
            input: self.prompt.deep_view(),
            output: self.completion.deep_view(),
            cache_read: self.input_cache_read.deep_view(),
            cache_write: self.input_cache_write.deep_view(),
        }
    }
}

impl DeepView for GatewayProvider {
    type V = Option<ModelRatesView>;

    open spec fn deep_view(&self) -> Option<ModelRatesView> {
        self.pricing.deep_view()
    }
}

impl DeepView for GatewayModel {
    type V = GatewayModelView;

    open spec fn deep_view(&self) -> GatewayModelView {
        GatewayModelView { id: self.id@, providers: self.providers.deep_view() }
    }
}

/// The rates of a listed model: those of its first provider, if that lists any.
pub open spec fn listed_rates(model: GatewayModelView) -> ModelRatesView {
    if model.providers.len() > 0 {
        match model.providers[0] {
            Some(rates) => rates,
            None => no_rates(),
        }
    } else {
        no_rates()
    }
}

/// The rates of all listed models by their ids: a later listing of an id replaces an earlier one.
pub open spec fn rates_by_id(models: Seq<GatewayModelView>) -> Map<Seq<char>, ModelRatesView>
    decreases models.len(),
{
    if models.len() == 0 {
        Map::empty()
    } else {
        rates_by_id(models.drop_last()).insert(models.last().id, listed_rates(models.last()))
    }
}

/// The rates of a model, none where it is not listed.
pub open spec fn rates_of(
    table: Map<Seq<char>, ModelRatesView>,
    model: Seq<char>,
) -> ModelRatesView {
    if table.contains_key(model) {
        table[model]
    } else {
        no_rates()
    }
}

impl GatewayModel {
    pub fn rates(&self) -> (rates: ModelRates)
        ensures
            rates.deep_view() == listed_rates(self.deep_view()),
    {
        if self.providers.len() > 0 {
            assert(self.deep_view().providers[0] == self.providers@[0].deep_view());
            match &self.providers[0].pricing {
                Some(p) => ModelRates {
                    input: p.prompt.clone(),
                    output: p.completion.clone(),
                    cache_read: p.input_cache_read.clone(),
                    cache_write: p.input_cache_write.clone(),
                },
                None => ModelRates::default(),
            }
        } else {
            ModelRates::default()
        }
    }
}

/// Rates by the id of the model.
#[derive(Debug)]
pub struct RateTable {
    entries: Vec<(String, ModelRates)>,
}

impl DeepView for RateTable {
    type V = Map<Seq<char>, ModelRatesView>;

    closed spec fn deep_view(&self) -> Map<Seq<char>, ModelRatesView> {
        entry_map(self.entries.deep_view())
    }
}

impl RateTable {
    /// A table without models.
    pub fn new() -> (table: Self)
        ensures
            table.deep_view() == Map::<Seq<char>, ModelRatesView>::empty(),
    {
        RateTable { entries: Vec::new() }
    }

    /// Sets the rates of a model.
    pub fn insert(&mut self, id: String, rates: ModelRates)
        ensures
            final(self).deep_view() == old(self).deep_view().insert(id@, rates.deep_view()),
    {
        self.entries.push((id, rates));
        assert(self.entries.deep_view().drop_last() =~= old(self).entries.deep_view());
    }

    /// The rates of a model.
    pub fn rates_for(&self, model: &str) -> (rates: ModelRates)
        ensures
            rates.deep_view() == rates_of(self.deep_view(), model@),
    {
        let wanted = model.to_owned();
        let ghost pairs = self.entries.deep_view();
        let mut i: usize = self.entries.len();
        while i > 0
            invariant
                i <= self.entries@.len(),
                wanted@ == model@,
                pairs == self.entries.deep_view(),
                forall|j: int| i <= j < pairs.len() ==> (#[trigger] pairs[j]).0 != model@,
            decreases i,
        {
            i = i - 1;
            assert(pairs[i as int] == self.entries@[i as int].deep_view());
            if self.entries[i].0 == wanted {
                proof {
                    lemma_entry_map_last(pairs, i as int);
                }
                return self.entries[i].1.clone();
            }
        }
        proof {
            lemma_entry_map_keys(pairs);
        }
        ModelRates::default()
    }

    /// The table of the models that the gateway lists.
    pub fn from_models(models: &Vec<GatewayModel>) -> (table: Self)
        ensures
            table.deep_view() == rates_by_id(models.deep_view()),
    {
        let mut table = RateTable::new();
        let ghost all = models.deep_view();
        for i in 0..models.len()
            invariant
                all == models.deep_view(),
                table.deep_view() == rates_by_id(all.take(i as int)),
        {
            table.insert(models[i].id.clone(), models[i].rates());
            assert(all.take(i + 1).drop_last() =~= all.take(i as int));
        }
        assert(all.take(all.len() as int) =~= all);
        table
    }
}

} // verus!
