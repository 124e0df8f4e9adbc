//! Token counts and latencies, by operation and in total.
use crate::json::{field_of, models, unsigned_in, Json, JsonValue};
use crate::text::{lower_of, str_eq, to_lower};
use std::time::{Duration, Instant};
use vstd::prelude::*;
use vstd::string::*;

verus! {

/// The operations that usage is counted for.
#[derive(Clone, Copy, Debug, PartialEq, Eq, Hash, Structural)]
pub enum StagehandFunctionName {
    Act,
    Extract,
    Observe,
    Agent,
}

/// The operation that a text names.
pub open spec fn function_named(name: Seq<char>) -> Option<StagehandFunctionName> {
    let word = lower_of(name);
    if word == "act"@ {
        Some(StagehandFunctionName::Act)
    } else if word == "extract"@ {
        Some(StagehandFunctionName::Extract)
    } else if word == "observe"@ {
        Some(StagehandFunctionName::Observe)
    } else if word == "agent"@ {
        Some(StagehandFunctionName::Agent)
    } else {
        None
    }
}

/// Reads the operation that a text names.
pub fn stagehand_function_from_str(name: &str) -> (out: Option<StagehandFunctionName>)
    ensures
        out == function_named(name@),
{
    let word = to_lower(name);
    if str_eq(word.as_str(), "act") {
        Some(StagehandFunctionName::Act)
    } else if str_eq(word.as_str(), "extract") {
        Some(StagehandFunctionName::Extract)
    } else if str_eq(word.as_str(), "observe") {
        Some(StagehandFunctionName::Observe)
    } else if str_eq(word.as_str(), "agent") {
        Some(StagehandFunctionName::Agent)
    } else {
        None
    }
}

/// The counts of each operation and of all together.
#[derive(Clone, Copy, Debug, PartialEq, Eq, Structural)]
pub struct StagehandMetrics {
    pub act_prompt_tokens: u64,
    pub act_completion_tokens: u64,
    pub act_inference_time_ms: u64,
    pub extract_prompt_tokens: u64,
    pub extract_completion_tokens: u64,
    pub extract_inference_time_ms: u64,
    pub observe_prompt_tokens: u64,
    pub observe_completion_tokens: u64,
    pub observe_inference_time_ms: u64,
    pub agent_prompt_tokens: u64,
    pub agent_completion_tokens: u64,
    pub agent_inference_time_ms: u64,
    pub total_prompt_tokens: u64,
    pub total_completion_tokens: u64,
    pub total_inference_time_ms: u64,
}

/// What was used: prompt tokens, completion tokens and milliseconds.
pub struct Usage {
    pub prompt: nat,
    pub completion: nat,
    pub time: nat,
}

/// The sum of two usages.
pub open spec fn plus(a: Usage, b: Usage) -> Usage {
    Usage {
        prompt: a.prompt + b.prompt,
        completion: a.completion + b.completion,
        time: a.time + b.time,
    }
}

/// Counts without a limit: one usage for each operation, and the total.
pub struct Counts {
    pub act: Usage,
    pub extract: Usage,
    pub observe: Usage,
    pub agent: Usage,
    pub total: Usage,
}

impl View for StagehandMetrics {
    type V = Counts;

    open spec fn view(&self) -> Counts {
        Counts {
            act: Usage {
                prompt: self.act_prompt_tokens as nat,
                completion: self.act_completion_tokens as nat,
                time: self.act_inference_time_ms as nat,
            },
            extract: Usage {
                prompt: self.extract_prompt_tokens as nat,
                completion: self.extract_completion_tokens as nat,
                time: self.extract_inference_time_ms as nat,
            },
            observe: Usage {
                prompt: self.observe_prompt_tokens as nat,
                completion: self.observe_completion_tokens as nat,
                time: self.observe_inference_time_ms as nat,
            },
            agent: Usage {
                prompt: self.agent_prompt_tokens as nat,
                completion: self.agent_completion_tokens as nat,
                time: self.agent_inference_time_ms as nat,
            },
            total: Usage {
                prompt: self.total_prompt_tokens as nat,
                completion: self.total_completion_tokens as nat,
                time: self.total_inference_time_ms as nat,
            },
        }
    }
}

/// Whether a usage can be counted with 64 bits.
pub open spec fn usage_fits(usage: Usage) -> bool {
    usage.prompt <= u64::MAX && usage.completion <= u64::MAX && usage.time <= u64::MAX
}

/// Whether counts can be kept with 64 bits.
pub open spec fn counts_fit(counts: Counts) -> bool {
    usage_fits(counts.act) && usage_fits(counts.extract) && usage_fits(counts.observe)
        && usage_fits(counts.agent) && usage_fits(counts.total)
}

/// Counts that start at nothing.
pub open spec fn no_counts() -> Counts {
    let none = Usage { prompt: 0, completion: 0, time: 0 };
    Counts { act: none, extract: none, observe: none, agent: none, total: none }
}

/// Two counts together.
pub open spec fn merged(a: Counts, b: Counts) -> Counts {
    Counts {
        act: plus(a.act, b.act),
        extract: plus(a.extract, b.extract),
        observe: plus(a.observe, b.observe),
        agent: plus(a.agent, b.agent),
        total: plus(a.total, b.total),
    }
}

/// Counts after more has been used, by an operation or by none of them.
pub open spec fn recorded(
    counts: Counts,
    function: Option<StagehandFunctionName>,
    usage: Usage,
) -> Counts {
    let total = plus(counts.total, usage);
    match function {
        Some(StagehandFunctionName::Act) => Counts {
            act: plus(counts.act, usage),
            total,
            ..counts
        },
        Some(StagehandFunctionName::Extract) => Counts {
            extract: plus(counts.extract, usage),
            total,
            ..counts
        },
        Some(StagehandFunctionName::Observe) => Counts {
            observe: plus(counts.observe, usage),
            total,
            ..counts
        },
        Some(StagehandFunctionName::Agent) => Counts {
            agent: plus(counts.agent, usage),
            total,
            ..counts
        },
        None => Counts { total, ..counts },
    }
}

impl Default for StagehandMetrics {
    /// Nothing has been used.
    fn default() -> (out: Self)
        ensures
            out@ == no_counts(),
    {
        StagehandMetrics {
            act_prompt_tokens: 0,
            act_completion_tokens: 0,
            act_inference_time_ms: 0,
            extract_prompt_tokens: 0,
            extract_completion_tokens: 0,
            extract_inference_time_ms: 0,
            observe_prompt_tokens: 0,
            observe_completion_tokens: 0,
            observe_inference_time_ms: 0,
            agent_prompt_tokens: 0,
            agent_completion_tokens: 0,
            agent_inference_time_ms: 0,
            total_prompt_tokens: 0,
            total_completion_tokens: 0,
            total_inference_time_ms: 0,
        }
    }
}

impl StagehandMetrics {
    /// Adds the counts of `other`.
    pub fn merge(&mut self, other: &StagehandMetrics)
        requires
            counts_fit(merged(old(self)@, other@)),
        ensures
            final(self)@ == merged(old(self)@, other@),
    {
        self.act_prompt_tokens = self.act_prompt_tokens + other.act_prompt_tokens;
        self.act_completion_tokens = self.act_completion_tokens + other.act_completion_tokens;
        self.act_inference_time_ms = self.act_inference_time_ms + other.act_inference_time_ms;
        self.extract_prompt_tokens = self.extract_prompt_tokens + other.extract_prompt_tokens;
        self.extract_completion_tokens = self.extract_completion_tokens + other.extract_completion_tokens;
        self.extract_inference_time_ms = self.extract_inference_time_ms + other.extract_inference_time_ms;
        self.observe_prompt_tokens = self.observe_prompt_tokens + other.observe_prompt_tokens;
        self.observe_completion_tokens = self.observe_completion_tokens + other.observe_completion_tokens;
        self.observe_inference_time_ms = self.observe_inference_time_ms + other.observe_inference_time_ms;
        self.agent_prompt_tokens = self.agent_prompt_tokens + other.agent_prompt_tokens;
        self.agent_completion_tokens = self.agent_completion_tokens + other.agent_completion_tokens;
        self.agent_inference_time_ms = self.agent_inference_time_ms + other.agent_inference_time_ms;
        self.total_prompt_tokens = self.total_prompt_tokens + other.total_prompt_tokens;
        self.total_completion_tokens = self.total_completion_tokens + other.total_completion_tokens;
        self.total_inference_time_ms = self.total_inference_time_ms + other.total_inference_time_ms;
    }

    /// Counts what an operation used, for it and in total.
    pub fn record(
        &mut self,
        function: StagehandFunctionName,
        prompt_tokens: u64,
        completion_tokens: u64,
        inference_time_ms: u64,
    )
        requires
            counts_fit(
                recorded(
                    old(self)@,
                    Some(function),
                    usage_of(prompt_tokens, completion_tokens, inference_time_ms),
                ),
            ),
        ensures
            final(self)@ == recorded(
                old(self)@,
                Some(function),
                usage_of(prompt_tokens, completion_tokens, inference_time_ms),
            ),
    {
        match function {
            StagehandFunctionName::Act => {
                self.act_prompt_tokens = self.act_prompt_tokens + prompt_tokens;
                self.act_completion_tokens = self.act_completion_tokens + completion_tokens;
                self.act_inference_time_ms = self.act_inference_time_ms + inference_time_ms;
            },
            StagehandFunctionName::Extract => {
                self.extract_prompt_tokens = self.extract_prompt_tokens + prompt_tokens;
                self.extract_completion_tokens = self.extract_completion_tokens + completion_tokens;
                self.extract_inference_time_ms = self.extract_inference_time_ms + inference_time_ms;
            },
            StagehandFunctionName::Observe => {
                self.observe_prompt_tokens = self.observe_prompt_tokens + prompt_tokens;
                self.observe_completion_tokens = self.observe_completion_tokens + completion_tokens;
                self.observe_inference_time_ms = self.observe_inference_time_ms + inference_time_ms;
            },
            StagehandFunctionName::Agent => {
                self.agent_prompt_tokens = self.agent_prompt_tokens + prompt_tokens;
                self.agent_completion_tokens = self.agent_completion_tokens + completion_tokens;
                self.agent_inference_time_ms = self.agent_inference_time_ms + inference_time_ms;
            },
        }
        self.record_total(prompt_tokens, completion_tokens, inference_time_ms);
    }

    /// Counts what was used outside the four operations, in total only.
    pub fn record_total(
        &mut self,
        prompt_tokens: u64,
        completion_tokens: u64,
        inference_time_ms: u64,
    )
        requires
            usage_fits(
                plus(
                    old(self)@.total,
                    usage_of(prompt_tokens, completion_tokens, inference_time_ms),
                ),
            ),
        ensures
            final(self)@ == recorded(
                old(self)@,
                None,
                usage_of(prompt_tokens, completion_tokens, inference_time_ms),
            ),
    {
        self.total_prompt_tokens = self.total_prompt_tokens + prompt_tokens;
        self.total_completion_tokens = self.total_completion_tokens + completion_tokens;
        self.total_inference_time_ms = self.total_inference_time_ms + inference_time_ms;
    }
}

impl StagehandMetrics {
    fn has_room(&self, function: Option<StagehandFunctionName>, prompt: u64, completion: u64, time: u64) -> (yes: bool)
        requires
            counts_fit(self@),
        ensures
            yes == counts_fit(recorded(self@, function, usage_of(prompt, completion, time))),
    {
        let (a, b, c): (u64, u64, u64) = match function {
            Some(StagehandFunctionName::Act) => (
                self.act_prompt_tokens,
                self.act_completion_tokens,
                self.act_inference_time_ms,
            ),
            Some(StagehandFunctionName::Extract) => (
                self.extract_prompt_tokens,
                self.extract_completion_tokens,
                self.extract_inference_time_ms,
            ),
            Some(StagehandFunctionName::Observe) => (
                self.observe_prompt_tokens,
                self.observe_completion_tokens,
                self.observe_inference_time_ms,
            ),
            Some(StagehandFunctionName::Agent) => (
                self.agent_prompt_tokens,
                self.agent_completion_tokens,
                self.agent_inference_time_ms,
            ),
            None => (0, 0, 0),
        };
        a.checked_add(prompt).is_some() && b.checked_add(completion).is_some() && c.checked_add(
            time,
        ).is_some() && self.total_prompt_tokens.checked_add(prompt).is_some()
            && self.total_completion_tokens.checked_add(completion).is_some()
            && self.total_inference_time_ms.checked_add(time).is_some()
    }

    /// Counts what was used, unless a count would no longer fit in 64 bits. Says
    /// whether it was counted.
    pub fn try_record(
        &mut self,
        function: Option<StagehandFunctionName>,
        prompt_tokens: u64,
        completion_tokens: u64,
        inference_time_ms: u64,
    ) -> (done: bool)
        ensures
            done == counts_fit(
                recorded(
                    old(self)@,
                    function,
                    usage_of(prompt_tokens, completion_tokens, inference_time_ms),
                ),
            ),
            final(self)@ == (if done {
                recorded(
                    old(self)@,
                    function,
                    usage_of(prompt_tokens, completion_tokens, inference_time_ms),
                )
            } else {
                old(self)@
            }),
    {
        if !self.has_room(function, prompt_tokens, completion_tokens, inference_time_ms) {
            return false;
        }
        match function {
            Some(function) => self.record(
                function,
                prompt_tokens,
                completion_tokens,
                inference_time_ms,
            ),
            None => self.record_total(prompt_tokens, completion_tokens, inference_time_ms),
        }
        true
    }
}

/// What was used, from its three numbers.
pub open spec fn usage_of(prompt_tokens: u64, completion_tokens: u64, inference_time_ms: u64) -> Usage {
    Usage {
        prompt: prompt_tokens as nat,
        completion: completion_tokens as nat,
        time: inference_time_ms as nat,
    }
}

/// The unsigned integer under a key, or zero where there is none.
pub open spec fn count_under(value: Json, key: Seq<char>) -> u64 {
    match field_of(value, key) {
        Some(found) => match unsigned_in(found) {
            Some(n) => n,
            None => 0,
        },
        None => 0,
    }
}

/// Reads the unsigned integer under a key, or zero where there is none.
pub fn read_count(value: &JsonValue, key: &str) -> (out: u64)
    ensures
        out == count_under(value@, key@),
{
    match value.get(key) {
        Some(found) => match found.as_u64() {
            Some(n) => n,
            None => 0,
        },
        None => 0,
    }
}

/// The operation that a replayed action names.
pub open spec fn action_function(action: Json) -> Option<StagehandFunctionName> {
    match field_of(action, "method"@) {
        Some(Json::Text(name)) => function_named(name),
        _ => function_named(seq![]),
    }
}

/// Counts after the usage of a replayed action; unchanged where it reports none.
pub open spec fn with_action(counts: Counts, action: Json) -> Counts {
    match field_of(action, "tokenUsage"@) {
        Some(Json::Members(members)) => recorded(
            counts,
            action_function(action),
            usage_of(
                count_under(Json::Members(members), "inputTokens"@),
                count_under(Json::Members(members), "outputTokens"@),
                count_under(Json::Members(members), "timeMs"@),
            ),
        ),
        _ => counts,
    }
}

/// Counts after a list of replayed actions.
pub open spec fn with_actions(counts: Counts, actions: Seq<Json>) -> Counts
    decreases actions.len(),
{
    if actions.len() == 0 {
        counts
    } else {
        with_action(with_actions(counts, actions.drop_last()), actions.last())
    }
}

/// The list under a key, or an empty one where there is none.
pub open spec fn list_under(value: Json, key: Seq<char>) -> Seq<Json> {
    match field_of(value, key) {
        Some(Json::List(items)) => items,
        _ => seq![],
    }
}

/// Counts after a list of replayed pages.
pub open spec fn with_pages(counts: Counts, pages: Seq<Json>) -> Counts
    decreases pages.len(),
{
    if pages.len() == 0 {
        counts
    } else {
        with_actions(
            with_pages(counts, pages.drop_last()),
            list_under(pages.last(), "actions"@),
        )
    }
}

/// The counts that a replay reports.
pub open spec fn replay_counts(data: Json) -> Counts {
    with_pages(no_counts(), list_under(data, "pages"@))
}

/// Whether `a` is at most `b`, count by count.
pub open spec fn within(a: Counts, b: Counts) -> bool {
    &&& usage_within(a.act, b.act)
    &&& usage_within(a.extract, b.extract)
    &&& usage_within(a.observe, b.observe)
    &&& usage_within(a.agent, b.agent)
    &&& usage_within(a.total, b.total)
}

/// Whether `a` is at most `b`, number by number.
pub open spec fn usage_within(a: Usage, b: Usage) -> bool {
    a.prompt <= b.prompt && a.completion <= b.completion && a.time <= b.time
}

proof fn lemma_actions_grow(counts: Counts, actions: Seq<Json>, n: int)
    requires
        0 <= n <= actions.len(),
    ensures
        within(with_actions(counts, actions.take(n)), with_actions(counts, actions)),
    decreases actions.len() - n,
{
    if n < actions.len() {
        assert(actions.take(n + 1).drop_last() =~= actions.take(n));
        lemma_actions_grow(counts, actions, n + 1);
    } else {
        assert(actions.take(n) =~= actions);
    }
}

proof fn lemma_pages_grow(counts: Counts, pages: Seq<Json>, n: int)
    requires
        0 <= n <= pages.len(),
    ensures
        within(with_pages(counts, pages.take(n)), with_pages(counts, pages)),
    decreases pages.len() - n,
{
    if n < pages.len() {
        let before = with_pages(counts, pages.take(n));
        let actions = list_under(pages[n], "actions"@);
        assert(pages.take(n + 1).drop_last() =~= pages.take(n));
        assert(actions.take(0) =~= Seq::<Json>::empty());
        lemma_actions_grow(before, actions, 0);
        lemma_pages_grow(counts, pages, n + 1);
    } else {
        assert(pages.take(n) =~= pages);
    }
}

fn count_action(metrics: &mut StagehandMetrics, action: &JsonValue) -> (done: bool)
    ensures
        done == counts_fit(with_action(old(metrics)@, action@)),
        done ==> final(metrics)@ == with_action(old(metrics)@, action@),
{
    if let Some(usage) = action.get("tokenUsage") {
        if usage.as_object().is_some() {
            let name = match action.get("method") {
                Some(method) => match method.as_str() {
                    Some(name) => name.clone(),
                    None => String::new(),
                },
                None => String::new(),
            };
            assert(name@.len() == 0 ==> name@ =~= Seq::<char>::empty());
            let prompt: u64 = read_count(usage, "inputTokens");
            let completion: u64 = read_count(usage, "outputTokens");
            let time: u64 = read_count(usage, "timeMs");
            let function = stagehand_function_from_str(name.as_str());
            return metrics.try_record(function, prompt, completion, time);
        }
    }
    true
}

/// Adds up the usage that a replay reports; there is no result where a count
/// would not fit in 64 bits.
pub fn checked_replay_metrics(data: &JsonValue) -> (out: Option<StagehandMetrics>)
    ensures
        out is Some <==> counts_fit(replay_counts(data@)),
        out matches Some(metrics) ==> metrics@ == replay_counts(data@),
{
    let mut metrics = StagehandMetrics::default();
    if let Some(value) = data.get("pages") {
        if let Some(pages) = value.as_array() {
            let ghost all = models(pages@);
            let mut i: usize = 0;
            assert(all.take(0) =~= Seq::<Json>::empty());
            while i < pages.len()
                invariant
                    i <= pages.len(),
                    all == models(pages@),
                    all == list_under(data@, "pages"@),
                    metrics@ == with_pages(no_counts(), all.take(i as int)),
                decreases pages.len() - i,
            {
                let ghost before = metrics@;
                proof {
                    assert(all.take(i + 1).drop_last() =~= all.take(i as int));
                    lemma_pages_grow(no_counts(), all, i + 1);
                }
                if let Some(list) = pages[i].get("actions") {
                    if let Some(actions) = list.as_array() {
                        let ghost steps = models(actions@);
                        let mut k: usize = 0;
                        assert(steps.take(0) =~= Seq::<Json>::empty());
                        while k < actions.len()
                            invariant
                                k <= actions.len(),
                                steps == models(actions@),
                                within(
                                    with_actions(before, steps),
                                    with_pages(no_counts(), list_under(data@, "pages"@)),
                                ),
                                metrics@ == with_actions(before, steps.take(k as int)),
                            decreases actions.len() - k,
                        {
                            proof {
                                assert(steps.take(k + 1).drop_last() =~= steps.take(k as int));
                                lemma_actions_grow(before, steps, k + 1);
                            }
                            if !count_action(&mut metrics, &actions[k]) {
                                return None;
                            }
                            k += 1;
                        }
                        assert(steps.take(k as int) =~= steps);
                    }
                }
                i += 1;
            }
            assert(all.take(i as int) =~= all);
        }
    }
    Some(metrics)
}

/// Adds up the usage that a replay reports.
pub fn parse_replay_metrics(data: &JsonValue) -> (out: StagehandMetrics)
    requires
        counts_fit(replay_counts(data@)),
    ensures
        out@ == replay_counts(data@),
{
    match checked_replay_metrics(data) {
        Some(metrics) => metrics,
        None => StagehandMetrics::default(),
    }
}

/// Whether the total is what the four operations used together.
pub open spec fn totals_agree(counts: Counts) -> bool {
    counts.total == plus(plus(counts.act, counts.extract), plus(counts.observe, counts.agent))
}

/// As long as only the four operations are counted, the total is what they used
/// together.
pub proof fn law_totals_agree(counts: Counts, function: StagehandFunctionName, usage: Usage)
    ensures
        totals_agree(no_counts()),
        totals_agree(counts) ==> totals_agree(recorded(counts, Some(function), usage)),
{
}

/// Merged counts agree where both do, in either order, and merging with nothing
/// changes nothing.
pub proof fn law_merge(a: Counts, b: Counts)
    ensures
        totals_agree(a) && totals_agree(b) ==> totals_agree(merged(a, b)),
        merged(a, b) == merged(b, a),
        merged(a, no_counts()) == a,
{
}

/// Counting a usage and merging can be done in either order.
pub proof fn law_record_then_merge(
    a: Counts,
    b: Counts,
    function: Option<StagehandFunctionName>,
    usage: Usage,
)
    ensures
        merged(recorded(a, function, usage), b) == recorded(merged(a, b), function, usage),
{
}

/// `std::time::Instant`, a moment of a steady clock.
#[verifier::external_type_specification]
#[verifier::external_body]
pub struct ExInstant(Instant);

/// `std::time::Instant::now` gives the present moment, of which nothing is said.
#[verifier::external_body]
pub fn start_inference_timer() -> Instant {
    Instant::now()
}

/// `std::time::Instant::elapsed` gives the time since a moment, of which nothing
/// is said.
#[verifier::external_body]
fn elapsed(start: Instant) -> Duration {
    start.elapsed()
}

/// The whole milliseconds of a duration, as `std::time::Duration::as_millis` gives
/// them.
pub uninterp spec fn whole_millis(duration: Duration) -> nat;

/// `std::time::Duration::as_millis` gives the whole milliseconds of a duration.
#[verifier::external_body]
fn millis_of(duration: Duration) -> (out: u128)
    ensures
        out == whole_millis(duration),
{
    duration.as_millis()
}

/// Gives the whole milliseconds since a moment.
pub fn get_inference_time_ms(start: Instant) -> (out: u128)
    ensures
        exists|duration: Duration| out == #[trigger] whole_millis(duration),
{
    millis_of(elapsed(start))
}

/// `std::time::Duration::from_millis` makes a duration of so many milliseconds.
#[verifier::external_body]
pub fn duration_from_millis(ms: u64) -> (out: Duration)
    ensures
        whole_millis(out) == ms,
{
    Duration::from_millis(ms)
}

} // verus!
