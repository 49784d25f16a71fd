use ai_gateway::error::{GatewayError, ProviderError};
use ai_gateway::providers::AIProvider;
use ai_gateway::router::{AIRouter, Attempt, Step};
use std::cell::RefCell;
use std::rc::Rc;

fn s(text: &str) -> String {
    text.to_string()
}

/// Every call made to any fake provider, as (provider name, prompt), in
/// the order of the calls.
type CallLog = Rc<RefCell<Vec<(String, String)>>>;

struct Fake {
    name: String,
    reply: Result<String, ProviderError>,
    log: CallLog,
}

impl AIProvider for Fake {
    fn name(&self) -> String {
        self.name.clone()
    }

    fn generate(&self, prompt: &str) -> Result<String, ProviderError> {
        self.log.borrow_mut().push((self.name.clone(), prompt.to_string()));
        self.reply.clone()
    }
}

fn new_log() -> CallLog {
    Rc::new(RefCell::new(Vec::new()))
}

fn succeeds(name: &str, text: &str, log: &CallLog) -> Fake {
    Fake { name: s(name), reply: Ok(s(text)), log: log.clone() }
}

fn fails(name: &str, error: ProviderError, log: &CallLog) -> Fake {
    Fake { name: s(name), reply: Err(error), log: log.clone() }
}

fn calls(log: &CallLog) -> Vec<(String, String)> {
    log.borrow().clone()
}

fn err1() -> ProviderError {
    ProviderError::TransportFailure(s("connection refused"))
}

fn err2() -> ProviderError {
    ProviderError::BackendRejected { backend: s("B"), body: s("quota exceeded") }
}

#[test]
fn new_router_has_no_provider_and_an_empty_cache() {
    let router: AIRouter<Fake> = AIRouter::new();
    assert_eq!(router.provider_count(), 0);
    assert!(router.provider(0).is_none());
    assert_eq!(router.cached("P"), None);
}

#[test]
fn add_provider_keeps_registration_order() {
    let log = new_log();
    let mut router = AIRouter::new();
    router.add_provider(succeeds("A", "a", &log));
    router.add_provider(succeeds("B", "b", &log));
    router.add_provider(succeeds("C", "c", &log));
    assert_eq!(router.provider_count(), 3);
    assert_eq!(router.provider(0).unwrap().name(), "A");
    assert_eq!(router.provider(1).unwrap().name(), "B");
    assert_eq!(router.provider(2).unwrap().name(), "C");
    assert!(router.provider(3).is_none());
    assert!(calls(&log).is_empty());
}

#[test]
fn cache_hit_takes_precedence_and_calls_no_provider() {
    let log = new_log();
    let mut router = AIRouter::new();
    router.add_provider(succeeds("N", "R", &log));
    assert_eq!(router.generate("P"), Ok((s("R"), s("N"), false)));
    assert_eq!(calls(&log).len(), 1);
    assert_eq!(router.generate("P"), Ok((s("R"), s("N"), true)));
    assert_eq!(router.generate("P"), Ok((s("R"), s("N"), true)));
    assert_eq!(calls(&log).len(), 1);
}

#[test]
fn fallback_tries_providers_in_order() {
    let log = new_log();
    let mut router = AIRouter::new();
    router.add_provider(fails("A", err1(), &log));
    router.add_provider(succeeds("B", "x", &log));
    assert_eq!(router.generate("P"), Ok((s("x"), s("B"), false)));
    assert_eq!(calls(&log), vec![(s("A"), s("P")), (s("B"), s("P"))]);
    assert_eq!(router.cached("P"), Some((s("x"), s("B"))));
}

#[test]
fn first_success_wins_and_later_providers_are_not_called() {
    let log = new_log();
    let mut router = AIRouter::new();
    router.add_provider(succeeds("A", "a", &log));
    router.add_provider(succeeds("B", "b", &log));
    assert_eq!(router.generate("P"), Ok((s("a"), s("A"), false)));
    assert_eq!(calls(&log), vec![(s("A"), s("P"))]);
    assert_eq!(router.cached("P"), Some((s("a"), s("A"))));
}

#[test]
fn all_failing_reports_the_last_failure() {
    let log = new_log();
    let mut router = AIRouter::new();
    router.add_provider(fails("A", err1(), &log));
    router.add_provider(fails("B", err2(), &log));
    assert_eq!(router.generate("P"), Err(GatewayError::AllProvidersFailed(Some(err2()))));
    assert_eq!(calls(&log), vec![(s("A"), s("P")), (s("B"), s("P"))]);
    assert_eq!(router.cached("P"), None);
}

#[test]
fn failed_prompt_is_tried_again_next_time() {
    let log = new_log();
    let mut router = AIRouter::new();
    router.add_provider(fails("A", err1(), &log));
    assert!(router.generate("P").is_err());
    assert!(router.generate("P").is_err());
    assert_eq!(calls(&log).len(), 2);
}

#[test]
fn no_provider_at_all_is_a_bare_aggregate_failure() {
    let mut router: AIRouter<Fake> = AIRouter::new();
    assert_eq!(router.generate("P"), Err(GatewayError::AllProvidersFailed(None)));
    assert_eq!(router.cached("P"), None);
}

#[test]
fn named_provider_is_the_only_one_called() {
    let log = new_log();
    let mut router = AIRouter::new();
    router.add_provider(succeeds("A", "a", &log));
    router.add_provider(succeeds("B", "b", &log));
    assert_eq!(router.generate_with_provider("P", "B"), Ok((s("b"), s("B"), false)));
    assert_eq!(calls(&log), vec![(s("B"), s("P"))]);
}

#[test]
fn named_provider_is_the_only_one_called_when_the_first_would_fail() {
    let log = new_log();
    let mut router = AIRouter::new();
    router.add_provider(fails("A", err1(), &log));
    router.add_provider(succeeds("B", "b", &log));
    assert_eq!(router.generate_with_provider("P", "B"), Ok((s("b"), s("B"), false)));
    assert_eq!(calls(&log), vec![(s("B"), s("P"))]);
}

#[test]
fn named_provider_failure_does_not_fall_back() {
    let log = new_log();
    let mut router = AIRouter::new();
    router.add_provider(fails("A", err1(), &log));
    router.add_provider(succeeds("B", "b", &log));
    assert_eq!(
        router.generate_with_provider("P", "A"),
        Err(GatewayError::AllProvidersFailed(Some(err1())))
    );
    assert_eq!(calls(&log), vec![(s("A"), s("P"))]);
    assert_eq!(router.cached("P"), None);
}

#[test]
fn unknown_provider_name_is_not_found_and_calls_nobody() {
    let log = new_log();
    let mut router = AIRouter::new();
    router.add_provider(succeeds("A", "a", &log));
    router.add_provider(succeeds("B", "b", &log));
    assert_eq!(router.generate_with_provider("P", "C"), Err(GatewayError::ProviderNotFound(s("C"))));
    assert!(calls(&log).is_empty());
    assert_eq!(router.cached("P"), None);
}

#[test]
fn unknown_provider_name_is_not_found_even_for_a_cached_prompt() {
    let log = new_log();
    let mut router = AIRouter::new();
    router.add_provider(succeeds("A", "a", &log));
    assert_eq!(router.generate("P"), Ok((s("a"), s("A"), false)));
    assert_eq!(router.generate_with_provider("P", "C"), Err(GatewayError::ProviderNotFound(s("C"))));
    assert_eq!(calls(&log).len(), 1);
}

#[test]
fn provider_names_are_matched_exactly() {
    let log = new_log();
    let mut router = AIRouter::new();
    router.add_provider(succeeds("OpenAI", "a", &log));
    assert_eq!(
        router.generate_with_provider("P", "openai"),
        Err(GatewayError::ProviderNotFound(s("openai")))
    );
    assert_eq!(
        router.generate_with_provider("P", "OpenAI "),
        Err(GatewayError::ProviderNotFound(s("OpenAI ")))
    );
    assert!(calls(&log).is_empty());
    assert_eq!(router.generate_with_provider("P", "OpenAI"), Ok((s("a"), s("OpenAI"), false)));
}

#[test]
fn named_path_and_fallback_path_share_one_cache() {
    let log = new_log();
    let mut router = AIRouter::new();
    router.add_provider(succeeds("A", "a", &log));
    router.add_provider(succeeds("B", "b", &log));
    assert_eq!(router.generate_with_provider("P", "B"), Ok((s("b"), s("B"), false)));
    assert_eq!(router.generate("P"), Ok((s("b"), s("B"), true)));
    assert_eq!(router.generate_with_provider("P", "A"), Ok((s("b"), s("B"), true)));
    assert_eq!(calls(&log), vec![(s("B"), s("P"))]);
}

#[test]
fn first_of_two_providers_with_one_name_is_chosen() {
    let log = new_log();
    let mut router = AIRouter::new();
    router.add_provider(succeeds("A", "first", &log));
    router.add_provider(succeeds("A", "second", &log));
    assert_eq!(router.generate_with_provider("P", "A"), Ok((s("first"), s("A"), false)));
    assert_eq!(calls(&log).len(), 1);
}

#[test]
fn prompts_differing_in_case_are_distinct_keys() {
    let log = new_log();
    let mut router = AIRouter::new();
    router.add_provider(succeeds("A", "a", &log));
    assert_eq!(router.generate("Hello"), Ok((s("a"), s("A"), false)));
    assert_eq!(router.generate("hello"), Ok((s("a"), s("A"), false)));
    assert_eq!(calls(&log), vec![(s("A"), s("Hello")), (s("A"), s("hello"))]);
    assert_eq!(router.generate("Hello"), Ok((s("a"), s("A"), true)));
    assert_eq!(router.generate("hello"), Ok((s("a"), s("A"), true)));
    assert_eq!(calls(&log).len(), 2);
}

#[test]
fn prompts_are_not_trimmed_or_normalised() {
    let log = new_log();
    let mut router = AIRouter::new();
    router.add_provider(succeeds("A", "a", &log));
    assert_eq!(router.generate("Hello"), Ok((s("a"), s("A"), false)));
    assert_eq!(router.generate("Hello "), Ok((s("a"), s("A"), false)));
    assert_eq!(router.generate(" Hello"), Ok((s("a"), s("A"), false)));
    assert_eq!(router.generate("Hello!"), Ok((s("a"), s("A"), false)));
    assert_eq!(calls(&log).len(), 4);
}

#[test]
fn second_call_for_a_prompt_never_reaches_the_provider() {
    let log = new_log();
    let mut router = AIRouter::new();
    router.add_provider(fails("A", err1(), &log));
    router.add_provider(succeeds("B", "x", &log));
    let first = router.generate("P");
    let second = router.generate("P");
    assert_eq!(first, Ok((s("x"), s("B"), false)));
    assert_eq!(second, Ok((s("x"), s("B"), true)));
    assert_eq!(calls(&log), vec![(s("A"), s("P")), (s("B"), s("P"))]);
}

#[test]
fn begin_on_a_hit_is_done_at_once() {
    let log = new_log();
    let mut router = AIRouter::new();
    router.add_provider(succeeds("A", "a", &log));
    assert_eq!(router.generate("P"), Ok((s("a"), s("A"), false)));
    assert_eq!(router.begin("P"), Step::Done(Ok((s("a"), s("A"), true))));
    assert_eq!(router.begin_with_provider("P", "A"), Step::Done(Ok((s("a"), s("A"), true))));
    assert_eq!(calls(&log).len(), 1);
}

#[test]
fn begin_on_a_miss_asks_for_the_first_provider() {
    let log = new_log();
    let mut router = AIRouter::new();
    router.add_provider(succeeds("A", "a", &log));
    router.add_provider(succeeds("B", "b", &log));
    assert_eq!(router.begin("P"), Step::Call(Attempt { index: 0, fallback: true }));
    assert_eq!(
        router.begin_with_provider("P", "B"),
        Step::Call(Attempt { index: 1, fallback: false })
    );
    assert_eq!(
        router.begin_with_provider("P", "C"),
        Step::Done(Err(GatewayError::ProviderNotFound(s("C"))))
    );
    assert!(calls(&log).is_empty());
}

#[test]
fn begin_without_providers_fails_at_once() {
    let router: AIRouter<Fake> = AIRouter::new();
    assert_eq!(router.begin("P"), Step::Done(Err(GatewayError::AllProvidersFailed(None))));
    assert_eq!(
        router.begin_with_provider("P", "A"),
        Step::Done(Err(GatewayError::ProviderNotFound(s("A"))))
    );
}

#[test]
fn resume_walks_the_fallback_chain() {
    let log = new_log();
    let mut router = AIRouter::new();
    router.add_provider(succeeds("A", "unused", &log));
    router.add_provider(succeeds("B", "unused", &log));
    router.add_provider(succeeds("C", "unused", &log));
    let first = Attempt { index: 0, fallback: true };
    let second = Attempt { index: 1, fallback: true };
    let third = Attempt { index: 2, fallback: true };
    assert_eq!(router.resume("P", first, Err(err1())), Step::Call(second));
    assert_eq!(router.cached("P"), None);
    assert_eq!(router.resume("P", second, Err(err2())), Step::Call(third));
    assert_eq!(
        router.resume("P", third, Err(err1())),
        Step::Done(Err(GatewayError::AllProvidersFailed(Some(err1()))))
    );
    assert_eq!(router.cached("P"), None);
    assert_eq!(router.resume("P", second, Ok(s("x"))), Step::Done(Ok((s("x"), s("B"), false))));
    assert_eq!(router.cached("P"), Some((s("x"), s("B"))));
    assert!(calls(&log).is_empty());
}

#[test]
fn resume_on_the_pinned_path_ends_either_way() {
    let log = new_log();
    let mut router = AIRouter::new();
    router.add_provider(succeeds("A", "unused", &log));
    router.add_provider(succeeds("B", "unused", &log));
    let pinned = Attempt { index: 0, fallback: false };
    assert_eq!(
        router.resume("P", pinned, Err(err2())),
        Step::Done(Err(GatewayError::AllProvidersFailed(Some(err2()))))
    );
    assert_eq!(router.cached("P"), None);
    assert_eq!(router.resume("P", pinned, Ok(s("a"))), Step::Done(Ok((s("a"), s("A"), false))));
    assert_eq!(router.cached("P"), Some((s("a"), s("A"))));
}

#[test]
fn resume_overwrites_an_answer_stored_meanwhile() {
    let log = new_log();
    let mut router = AIRouter::new();
    router.add_provider(succeeds("A", "unused", &log));
    router.add_provider(succeeds("B", "unused", &log));
    let one = router.begin("P");
    let two = router.begin("P");
    assert_eq!(one, Step::Call(Attempt { index: 0, fallback: true }));
    assert_eq!(two, one);
    let attempt = Attempt { index: 0, fallback: true };
    assert_eq!(router.resume("P", attempt, Ok(s("early"))), Step::Done(Ok((s("early"), s("A"), false))));
    assert_eq!(router.resume("P", attempt, Ok(s("late"))), Step::Done(Ok((s("late"), s("A"), false))));
    assert_eq!(router.cached("P"), Some((s("late"), s("A"))));
}

#[test]
fn stepwise_run_equals_the_direct_run() {
    let log = new_log();
    let mut direct = AIRouter::new();
    direct.add_provider(fails("A", err1(), &log));
    direct.add_provider(fails("B", err2(), &log));
    direct.add_provider(succeeds("C", "c", &log));
    let mut stepped = AIRouter::new();
    stepped.add_provider(fails("A", err1(), &log));
    stepped.add_provider(fails("B", err2(), &log));
    stepped.add_provider(succeeds("C", "c", &log));

    let expected = direct.generate("P");
    let mut step = stepped.begin("P");
    let mut asked = Vec::new();
    let got = loop {
        match step {
            Step::Done(result) => break result,
            Step::Call(attempt) => {
                asked.push(attempt.index);
                let outcome = stepped.provider(attempt.index).unwrap().generate("P");
                step = stepped.resume("P", attempt, outcome);
            }
        }
    };
    assert_eq!(got, expected);
    assert_eq!(got, Ok((s("c"), s("C"), false)));
    assert_eq!(asked, vec![0, 1, 2]);
    assert_eq!(stepped.cached("P"), direct.cached("P"));
}
