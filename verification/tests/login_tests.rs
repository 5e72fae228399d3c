use patchwork::identity::{authorization_header, bearer_token};
use patchwork::login::{
    base_url, login_step, start_action, LoginOutcome, LoginPhase, StartAction, API_BASE_URL,
    JWT_STORAGE_KEY,
};
use patchwork::ui::{text_gray, texture_index, BUTTON_TEXTURES, IDLE_TEXT_GRAY};

#[test]
fn base_url_depends_on_the_build() {
    assert_eq!(base_url(true), "http://127.0.0.1:5380");
    assert_eq!(base_url(false), "http://www.ckiddo.com:5380");
    assert_eq!(API_BASE_URL, "http://localhost:5380/api");
    assert_eq!(JWT_STORAGE_KEY, "game_jwt_token");
}

#[test]
fn a_cached_token_that_is_accepted_signs_in() {
    let phase = login_step(LoginPhase::ReadingCache, LoginOutcome::Done);
    assert_eq!(phase, LoginPhase::VerifyingCached);
    assert!(!phase.finished());
    let phase = login_step(phase, LoginOutcome::Done);
    assert_eq!(phase, LoginPhase::SignedInWithCached);
    assert!(phase.finished());
}

#[test]
fn without_a_cached_token_a_new_one_is_asked_for_and_stored() {
    let phase = login_step(LoginPhase::ReadingCache, LoginOutcome::Failed);
    assert_eq!(phase, LoginPhase::RequestingNew);
    let phase = login_step(phase, LoginOutcome::Done);
    assert_eq!(phase, LoginPhase::StoringNew);
    assert!(!phase.finished());
    let phase = login_step(phase, LoginOutcome::Done);
    assert_eq!(phase, LoginPhase::SignedInWithNew);
    assert!(phase.finished());
}

#[test]
fn a_refused_cached_token_is_replaced() {
    let phase = login_step(LoginPhase::VerifyingCached, LoginOutcome::Failed);
    assert_eq!(phase, LoginPhase::RequestingNew);
}

#[test]
fn signing_in_fails_without_a_new_token_or_a_place_to_store_it() {
    let phase = login_step(LoginPhase::RequestingNew, LoginOutcome::Failed);
    assert_eq!(phase, LoginPhase::RequestFailed);
    assert!(phase.finished());
    let phase = login_step(LoginPhase::StoringNew, LoginOutcome::Failed);
    assert_eq!(phase, LoginPhase::StoreFailed);
    assert!(phase.finished());
}

#[test]
fn an_ended_sign_in_stays_ended() {
    for phase in [
        LoginPhase::SignedInWithCached,
        LoginPhase::SignedInWithNew,
        LoginPhase::RequestFailed,
        LoginPhase::StoreFailed,
    ] {
        assert_eq!(login_step(phase, LoginOutcome::Done), phase);
        assert_eq!(login_step(phase, LoginOutcome::Failed), phase);
    }
}

#[test]
fn signing_in_ends_within_four_steps() {
    for first in [LoginOutcome::Done, LoginOutcome::Failed] {
        for second in [LoginOutcome::Done, LoginOutcome::Failed] {
            for third in [LoginOutcome::Done, LoginOutcome::Failed] {
                for fourth in [LoginOutcome::Done, LoginOutcome::Failed] {
                    let mut phase = LoginPhase::ReadingCache;
                    for outcome in [first, second, third, fourth] {
                        phase = login_step(phase, outcome);
                    }
                    assert!(phase.finished());
                }
            }
        }
    }
}

#[test]
fn a_header_carries_its_token() {
    assert_eq!(authorization_header("abc.def"), "Bearer abc.def");
    assert_eq!(authorization_header(""), "Bearer ");
    let header = authorization_header("x.y.z");
    assert_eq!(bearer_token(Some(&header)), Ok("x.y.z"));
}

#[test]
fn button_textures() {
    assert_eq!(BUTTON_TEXTURES, 3);
    assert_eq!(texture_index(false, false), 0);
    assert_eq!(texture_index(false, true), 1);
    assert_eq!(texture_index(true, true), 2);
    assert_eq!(texture_index(true, false), 2);
}

#[test]
fn button_text_is_black_under_the_pointer() {
    assert_eq!(text_gray(true), 0);
    assert_eq!(text_gray(false), 200);
    assert_eq!(IDLE_TEXT_GRAY, 200);
}

#[test]
fn the_start_button_starts_a_game_once() {
    assert_eq!(start_action(false, true), StartAction::Start);
    assert_eq!(start_action(false, false), StartAction::ReportMissingToken);
    assert_eq!(start_action(true, true), StartAction::Nothing);
    assert_eq!(start_action(true, false), StartAction::Nothing);
}
