use std::collections::BTreeMap;

use bast3st::evaluation::process::{
    PAlternativeTest, PGeneralTest, ProcessedTestStatus, record_alternative,
};
use bast3st::evaluation::single_evaluation::{AnyEvalTermination, SingleEvaluation, Step};
use bast3st::features::{Features, RequiredFeatures};
use bast3st::log_pfx::LogPfx;
use bast3st::messages::Messages;
use bast3st::spec::entities::{
    ActionEntity, EndThisTestMode, Entity, MessageSendingLevel, MessageSeverity, ValueReference,
};
use bast3st::spec::runtime::{
    EndThisTestAction, FatalError, InnerRuntimeCriterion, MaybeEval, RuntimeCriterion,
};
use bast3st::spec::structure::AlternativeTestHooks;
use bast3st::spec::text::Text;

fn text(s: &str) -> Text {
    Text(s.to_string())
}

#[test]
fn sending_to_the_current_level_needs_its_capability() {
    assert_eq!(MessageSendingLevel::Current.required_features(), Features::SENDMSG_CURRENT());
    assert_eq!(MessageSendingLevel::Spec.required_features(), Features::SENDMSG_SPEC());
    assert_eq!(MessageSendingLevel::Category.required_features(), Features::SENDMSG_CATEGORY());
    assert_eq!(MessageSendingLevel::Maintest.required_features(), Features::SENDMSG_MAINTEST());

    let mut ents = BTreeMap::new();
    ents.insert(
        1,
        Entity::Action(ActionEntity::SendMsg {
            text: ValueReference::LitString(text("hi")),
            severity: MessageSeverity::Info,
            level: MessageSendingLevel::Current,
        }),
    );
    let run = |allowed: Features| {
        let mut ev = SingleEvaluation::new(&ents, 1, allowed).unwrap();
        for _ in 0..100 {
            match ev.run_step() {
                Ok(Step::Continue) => {}
                _ => break,
            }
        }
        ev.into_finished_or_cancelled()
    };
    let without = run(Features::END_THIS_TEST());
    assert!(matches!(without.value(), Err(AnyEvalTermination::Fatal(FatalError::FeatureMissmatch { .. }))));
    let with = run(Features::SENDMSG_CURRENT());
    assert!(matches!(with.value(), Ok(Some(_))));
}

#[test]
fn log_prefixes_from_text_and_positions() {
    let p = LogPfx::new("spec");
    let q = LogPfx::from("spec");
    assert_eq!(p.0.0, q.0.0);
    assert_eq!(p.join("cat").join_index(0).0.0, "\"spec\"/\"cat\"/0");
    assert_eq!(p.0.0, "\"spec\"");
}

#[test]
fn maybe_evaluated_values() {
    let m: MaybeEval<u64> = MaybeEval::from(3);
    assert_eq!(m.as_eval(), m.clone().into_eval().as_ref());
    assert_eq!(m.clone().into_eval(), Some(3));
    let u: MaybeEval<u64> = MaybeEval::default();
    assert_eq!(u.into_eval(), None);
    assert!(MaybeEval::Unevaluated < MaybeEval::Evaluated(0u64));
}

fn alt(status: ProcessedTestStatus) -> PAlternativeTest {
    PAlternativeTest {
        messages: Messages::new(),
        general: PGeneralTest {
            status,
            hooks: AlternativeTestHooks { before_alt: Vec::new(), after_alt: Vec::new() },
            data: None,
        },
    }
}

fn failed() -> ProcessedTestStatus {
    ProcessedTestStatus::Criterion(RuntimeCriterion::new_unfulfilled(None, InnerRuntimeCriterion::AllOf { clauses: vec![] }))
}

fn passed() -> ProcessedTestStatus {
    ProcessedTestStatus::EndedByAction(EndThisTestAction { mode: EndThisTestMode::Pass, explaination: text("ok") })
}

#[test]
fn alternatives_are_tried_until_one_passes() {
    let mut tried = Vec::new();
    assert!(record_alternative(&mut tried, alt(failed())));
    assert!(!record_alternative(&mut tried, alt(passed())));
    assert_eq!(tried.len(), 2);
    assert!(!tried[0].general.status.is_successful());
    assert!(tried[1].general.status.is_successful());
}

#[test]
fn white_space_is_trimmed() {
    let spaces = ['\t', '\n', '\u{0B}', '\u{0C}', '\r', ' ', '\u{85}', '\u{A0}', '\u{1680}', '\u{2000}', '\u{200A}', '\u{2028}', '\u{2029}', '\u{202F}', '\u{205F}', '\u{3000}'];
    for c in spaces {
        let t = Text(format!("{c}x{c}"));
        assert_eq!(t.trim().0, "x", "{:?}", c);
    }
    for u in 0u32..0x3100 {
        if let Some(c) = char::from_u32(u) {
            let t = Text(format!("{c}"));
            assert_eq!(t.trim().0.is_empty(), c.is_whitespace(), "{:?}", c);
        }
    }
}
