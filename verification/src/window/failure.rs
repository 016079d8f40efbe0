//! Failures that follow failures, and what is left of them at the end.

use vstd::prelude::*;

use crate::error::{AppError, AppResult, ErrorModel};
use crate::pty::cleanup;
use crate::pty::process::DETACHED_CLEANUP_DRAIN_TIMEOUT_OPERATION;
use crate::text;

verus! {

pub const ADDITIONALLY_FAILED: &'static str = "; additionally failed to ";

pub const ROLLBACK_CONTROLS: &'static str = "rollback command panel controls";

pub const ROLLBACK_RESIZE: &'static str = "rollback command panel resize";

pub const ROLLBACK_FONT: &'static str = "rollback terminal font";

pub const REFRESH_CONTROLS_TASK: &'static str = "refresh command panel controls";

pub const ROLLBACK_LAYOUT_TASK: &'static str = "rollback command panel layout";

pub const ROLLBACK_SESSION_TASK: &'static str = "rollback terminal session size";

pub const ROLLBACK_FONT_TASK: &'static str = "rollback terminal font";

pub const DISPLAY_TASK: &'static str = "display user-facing error";

pub const REFRESH_VIEWPORT_TASK: &'static str = "refresh terminal viewport";

pub const SHUTDOWN_WINDOW: &'static str = "shutdown window";

pub const SHUTDOWN_APPLICATION: &'static str = "shutdown application";

pub const SEPARATOR: &'static str = "; ";

/// A failure, and another one on the way back from it, in words.
pub open spec fn double_failure(first: Seq<char>, task: Seq<char>, second: Seq<char>) -> Seq<char> {
    first + ADDITIONALLY_FAILED@ + task + ": "@ + second
}

pub fn double_failure_text(first: &str, task: &str, second: &str) -> (words: String)
    ensures
        words@ == double_failure(first@, task@, second@),
{
    let mut words = text::join3(first, ADDITIONALLY_FAILED, task);
    words.append(": ");
    words.append(second);
    words
}

/// The error of a step that failed, and could not be taken back either.
pub fn rollback_failed(
    operation: &'static str,
    first: &AppError,
    task: &str,
    rollback: &AppError,
) -> (error: AppError)
    ensures
        error@ == ErrorModel::Ui(
            operation@,
            double_failure(first@.text(), task@, rollback@.text()),
        ),
{
    AppError::ui_message(
        operation,
        double_failure_text(first.message().as_str(), task, rollback.message().as_str()),
    )
}

/// The error of a step that failed and was taken back, or not.
pub fn after_rollback(
    first: AppError,
    operation: &'static str,
    task: &str,
    rollback: AppResult<()>,
) -> (error: AppError)
    ensures
        error@ == match rollback {
            Ok(_) => first@,
            Err(second) => ErrorModel::Ui(
                operation@,
                double_failure(first@.text(), task@, second@.text()),
            ),
        },
{
    match rollback {
        Ok(()) => first,
        Err(second) => rollback_failed(operation, &first, task, &second),
    }
}

/// What is kept of an error once it was shown to the user, given how that went.
pub open spec fn recorded(
    cause: Seq<char>,
    displayed: Result<(), ErrorModel>,
    refreshed: Result<(), ErrorModel>,
) -> Seq<char> {
    match displayed {
        Err(error) => double_failure(cause, DISPLAY_TASK@, error.text()),
        Ok(_) => match refreshed {
            Err(error) => double_failure(cause, REFRESH_VIEWPORT_TASK@, error.text()),
            Ok(_) => cause,
        },
    }
}

pub open spec fn outcome_model(outcome: AppResult<()>) -> Result<(), ErrorModel> {
    match outcome {
        Ok(_) => Ok(()),
        Err(error) => Err(error@),
    }
}

/// The text that an error is recorded as. The viewport is refreshed where the
/// error could be displayed.
pub fn record_error(error: &AppError, displayed: AppResult<()>, refreshed: AppResult<()>) -> (message:
    String)
    ensures
        message@ == recorded(error@.text(), outcome_model(displayed), outcome_model(refreshed)),
{
    let cause = error.message();
    match displayed {
        Err(failure) => double_failure_text(
            cause.as_str(),
            DISPLAY_TASK,
            failure.message().as_str(),
        ),
        Ok(()) => match refreshed {
            Err(failure) => double_failure_text(
                cause.as_str(),
                REFRESH_VIEWPORT_TASK,
                failure.message().as_str(),
            ),
            Ok(()) => cause,
        },
    }
}

/// The last error of a window, in words, until it is taken.
#[derive(Debug)]
pub struct WindowErrorState {
    pub message: Option<String>,
}

impl WindowErrorState {
    pub fn new() -> (state: Self)
        ensures
            state.message is None,
    {
        WindowErrorState { message: None }
    }

    pub fn take(&mut self) -> (message: Option<String>)
        ensures
            message == old(self).message,
            final(self).message is None,
    {
        self.message.take()
    }

    pub fn set(&mut self, message: String)
        ensures
            final(self).message == Some(message),
    {
        self.message = Some(message);
    }

    pub fn as_deref(&self) -> (message: Option<&str>)
        ensures
            message is Some == self.message is Some,
            message is Some ==> (message->0)@ == (self.message->0)@,
    {
        match &self.message {
            Some(message) => Some(message.as_str()),
            None => None,
        }
    }

    /// Records an error of painting or of making the window. Nothing is displayed for
    /// it.
    pub fn record_paint_error(&mut self, error: &AppError)
        ensures
            final(self).message is Some,
            (final(self).message->0)@ == error@.text(),
    {
        self.set(error.message());
    }
}

/// Errors as values.
pub open spec fn error_models(errors: Seq<AppError>) -> Seq<ErrorModel> {
    errors.map_values(|error: AppError| error@)
}

/// The errors in words, one behind the other.
pub open spec fn joined_texts(errors: Seq<ErrorModel>) -> Seq<char>
    decreases errors.len(),
{
    if errors.len() == 0 {
        Seq::empty()
    } else if errors.len() == 1 {
        errors[0].text()
    } else {
        joined_texts(errors.drop_last()) + SEPARATOR@ + errors.last().text()
    }
}

pub fn join_messages(errors: &Vec<AppError>) -> (message: String)
    ensures
        message@ == joined_texts(error_models(errors@)),
{
    let ghost models = error_models(errors@);
    if errors.len() == 0 {
        return String::new();
    }
    let mut message = errors[0].message();
    let mut index: usize = 1;
    assert(models.take(1)[0] == models[0]);
    while index < errors.len()
        invariant
            models == error_models(errors@),
            1 <= index <= errors@.len(),
            message@ == joined_texts(models.take(index as int)),
        decreases errors@.len() - index,
    {
        assert(models.take(index + 1).drop_last() =~= models.take(index as int));
        message.append(SEPARATOR);
        message.append(errors[index].message().as_str());
        assert(message@ =~= joined_texts(models.take(index + 1)));
        index += 1;
    }
    assert(models.take(index as int) =~= models);
    message
}

/// A list with an outcome's error behind it, if it has one.
pub open spec fn with_error(errors: Seq<ErrorModel>, outcome: AppResult<()>) -> Seq<ErrorModel> {
    match outcome {
        Ok(_) => errors,
        Err(error) => errors.push(error@),
    }
}

fn push_error(errors: &mut Vec<AppError>, outcome: AppResult<()>)
    ensures
        error_models(final(errors)@) == with_error(error_models(old(errors)@), outcome),
{
    let ghost before = error_models(errors@);
    match outcome {
        Ok(()) => {},
        Err(error) => {
            errors.push(error);
            assert(error_models(errors@) =~= before.push(error@));
        },
    }
}

/// The one error that several are: none, the only one itself, or all of them in
/// words.
pub open spec fn combined(errors: Seq<ErrorModel>) -> Result<(), ErrorModel> {
    if errors.len() == 0 {
        Ok(())
    } else if errors.len() == 1 {
        Err(errors[0])
    } else {
        Err(ErrorModel::Pty(SHUTDOWN_APPLICATION@, joined_texts(errors)))
    }
}

/// How the application ended: the message loop's error comes first, then the
/// window's destruction, its shutdown, and what was cleaned up in the
/// background.
pub fn finish_shutdown_result(
    loop_result: AppResult<()>,
    destroy_result: AppResult<()>,
    shutdown_result: AppResult<()>,
    cleanup_errors: Vec<AppError>,
) -> (result: AppResult<()>)
    ensures
        outcome_model(result) == combined(
            with_error(
                with_error(with_error(Seq::empty(), loop_result), destroy_result),
                shutdown_result,
            ) + error_models(cleanup_errors@),
        ),
{
    let mut errors: Vec<AppError> = Vec::new();
    assert(error_models(errors@) =~= Seq::empty());
    push_error(&mut errors, loop_result);
    push_error(&mut errors, destroy_result);
    push_error(&mut errors, shutdown_result);
    let ghost own = error_models(errors@);
    let ghost cleanup_models = error_models(cleanup_errors@);
    let mut rest = cleanup_errors;
    errors.append(&mut rest);
    assert(error_models(errors@) =~= own + cleanup_models);
    if errors.len() == 0 {
        return Ok(());
    }
    if errors.len() == 1 {
        let ghost only = error_models(errors@);
        return match errors.pop() {
            Some(error) => {
                assert(only[0] == error@);
                Err(error)
            },
            None => Ok(()),
        };
    }
    Err(AppError::pty_message(SHUTDOWN_APPLICATION, join_messages(&errors)))
}

/// No failure of a shutdown is passed over in silence.
pub proof fn law_shutdown_reports_every_failure(errors: Seq<ErrorModel>)
    ensures
        combined(errors) is Ok <==> errors.len() == 0,
{
}

/// The shutdown's outcome, given the error that was recorded on the way.
pub fn take_shutdown_error_result(recorded_error: Option<String>) -> (result: AppResult<()>)
    ensures
        match recorded_error {
            Some(message) => result is Err && (result->Err_0)@ == ErrorModel::Ui(
                SHUTDOWN_WINDOW@,
                message@,
            ),
            None => result is Ok,
        },
{
    match recorded_error {
        Some(message) => Err(AppError::ui_message(SHUTDOWN_WINDOW, message)),
        None => Ok(()),
    }
}

/// Whether a background cleanup's error says only that it took too long.
pub open spec fn is_timeout(error: ErrorModel) -> bool {
    error.operation() == Some(DETACHED_CLEANUP_DRAIN_TIMEOUT_OPERATION@)
}

/// Those of some errors that say, or do not say, that a cleanup took too long.
pub open spec fn selected(errors: Seq<ErrorModel>, timeouts: bool) -> Seq<ErrorModel>
    decreases errors.len(),
{
    if errors.len() == 0 {
        Seq::empty()
    } else if is_timeout(errors.last()) == timeouts {
        selected(errors.drop_last(), timeouts).push(errors.last())
    } else {
        selected(errors.drop_last(), timeouts)
    }
}

/// The errors of the background cleanup that make the application fail, and
/// those that are only reported because the cleanup goes on.
pub fn collect_detached_cleanup_errors_after_gtk_exit(detached_cleanup_errors: Vec<AppError>) -> (split:
    (Vec<AppError>, Vec<AppError>))
    ensures
        error_models(split.0@) == selected(error_models(detached_cleanup_errors@), false),
        error_models(split.1@) == selected(error_models(detached_cleanup_errors@), true),
{
    let ghost all = detached_cleanup_errors@;
    let ghost models = error_models(all);
    let mut failures: Vec<AppError> = Vec::new();
    let mut timeouts: Vec<AppError> = Vec::new();
    assert(models.take(0) =~= Seq::empty());
    for error in iter: detached_cleanup_errors
        invariant
            iter.seq() == all,
            models == error_models(all),
            error_models(failures@) =~= selected(models.take(iter.index() as int), false),
            error_models(timeouts@) =~= selected(models.take(iter.index() as int), true),
    {
        let ghost index = iter.index() as int;
        let ghost part = models.take(index + 1);
        let ghost failure_models = error_models(failures@);
        let ghost timeout_models = error_models(timeouts@);
        proof {
            assert(part.drop_last() =~= models.take(index));
            assert(part.last() == error@);
        }
        if cleanup::is_detached_cleanup_timeout_error(&error) {
            timeouts.push(error);
            assert(error_models(timeouts@) =~= timeout_models.push(error@));
        } else {
            failures.push(error);
            assert(error_models(failures@) =~= failure_models.push(error@));
        }
    }
    assert(models.take(models.len() as int) =~= models);
    (failures, timeouts)
}

/// How the application ended, given the errors of the background cleanup that
/// make it fail.
pub fn cleanup_result(cleanup_errors: &Vec<AppError>) -> (result: AppResult<()>)
    ensures
        result is Ok == (cleanup_errors@.len() == 0),
        result is Err ==> (result->Err_0)@ == ErrorModel::Pty(
            SHUTDOWN_APPLICATION@,
            joined_texts(error_models(cleanup_errors@)),
        ),
{
    if cleanup_errors.len() == 0 {
        Ok(())
    } else {
        Err(AppError::pty_message(SHUTDOWN_APPLICATION, join_messages(cleanup_errors)))
    }
}

/// Every error of the background cleanup either makes the application fail or
/// is reported.
pub proof fn law_no_cleanup_error_is_lost(errors: Seq<ErrorModel>)
    ensures
        selected(errors, true).len() + selected(errors, false).len() == errors.len(),
    decreases errors.len(),
{
    if errors.len() > 0 {
        law_no_cleanup_error_is_lost(errors.drop_last());
    }
}

pub const CREATE_WINDOW: &'static str = "create main window";

pub const INITIALIZE_WINDOW: &'static str = "initialize main window";

/// How the creation of a window went: a message that was recorded meanwhile says more
/// than the platform's own error, and is an error also where there is a window.
pub fn creation_result(created: AppResult<()>, recorded: Option<String>) -> (result: AppResult<()>)
    ensures
        match (created, recorded) {
            (Err(_), Some(message)) => result is Err && (result->Err_0)@ == ErrorModel::Ui(
                CREATE_WINDOW@,
                message@,
            ),
            (Err(error), None) => result == Err::<(), AppError>(error),
            (Ok(()), Some(message)) => result is Err && (result->Err_0)@ == ErrorModel::Ui(
                INITIALIZE_WINDOW@,
                message@,
            ),
            (Ok(()), None) => result is Ok,
        },
{
    match (created, recorded) {
        (Err(_), Some(message)) => Err(AppError::ui_message(CREATE_WINDOW, message)),
        (Err(error), None) => Err(error),
        (Ok(()), Some(message)) => Err(AppError::ui_message(INITIALIZE_WINDOW, message)),
        (Ok(()), None) => Ok(()),
    }
}

/// Two failures in words begin with the first one, end with the second one, and name the task
/// that failed on the way back between them.
pub proof fn law_both_failures_are_told(first: Seq<char>, task: Seq<char>, second: Seq<char>)
    ensures
        ({
            let words = double_failure(first, task, second);
            let between = words.subrange(first.len() as int, words.len() - second.len());
            &&& words.len() >= first.len() + task.len() + second.len()
            &&& words.take(first.len() as int) == first
            &&& words.skip(words.len() - second.len()) == second
            &&& text::holds_text(between, task)
        }),
{
    let words = double_failure(first, task, second);
    let between = words.subrange(first.len() as int, words.len() - second.len());
    let at = ADDITIONALLY_FAILED@.len() as int;
    assert(words.take(first.len() as int) =~= first);
    assert(words.skip(words.len() - second.len()) =~= second);
    assert(between.subrange(at, at + task.len()) =~= task);
}

/// An error is recorded in its own words, where it could be shown and the viewport refreshed
/// after it; otherwise what went wrong then is told behind them.
pub proof fn law_recorded_error_begins_with_its_cause(
    cause: Seq<char>,
    displayed: Result<(), ErrorModel>,
    refreshed: Result<(), ErrorModel>,
)
    ensures
        ({
            let words = recorded(cause, displayed, refreshed);
            &&& words.take(cause.len() as int) == cause
            &&& displayed is Ok && refreshed is Ok ==> words == cause
            &&& displayed matches Err(error) ==> words.skip(words.len() - error.text().len())
                == error.text()
            &&& displayed is Ok ==> (refreshed matches Err(error) ==> words.skip(
                words.len() - error.text().len(),
            ) == error.text())
        }),
{
    assert(cause.take(cause.len() as int) =~= cause);
    if displayed is Err {
        law_both_failures_are_told(cause, DISPLAY_TASK@, displayed->Err_0.text());
    } else if refreshed is Err {
        law_both_failures_are_told(cause, REFRESH_VIEWPORT_TASK@, refreshed->Err_0.text());
    }
}

/// Errors in words hold the words of every one of them.
pub proof fn law_joined_texts_hold_every_error(errors: Seq<ErrorModel>, i: int)
    requires
        0 <= i < errors.len(),
    ensures
        text::holds_text(joined_texts(errors), errors[i].text()),
    decreases errors.len(),
{
    let whole = joined_texts(errors);
    let part = errors[i].text();
    if errors.len() == 1 {
        assert(whole.subrange(0, part.len() as int) =~= part);
        assert(text::holds_text(whole, part));
    } else {
        let rest = errors.drop_last();
        let before = joined_texts(rest);
        if i == errors.len() - 1 {
            let at = whole.len() - part.len();
            assert(whole.subrange(at, at + part.len()) =~= part);
            assert(text::holds_text(whole, part));
        } else {
            law_joined_texts_hold_every_error(rest, i);
            let at = choose|at: int|
                0 <= at && at + part.len() <= before.len() && #[trigger] before.subrange(
                    at,
                    at + part.len(),
                ) == part;
            assert(whole.subrange(at, at + part.len()) =~= before.subrange(at, at + part.len()));
            assert(text::holds_text(whole, part));
        }
    }
}

/// The only error of a shutdown is reported as it is; of several, the report holds the words of
/// each.
pub proof fn law_shutdown_report_holds_every_failure(errors: Seq<ErrorModel>, i: int)
    requires
        0 <= i < errors.len(),
    ensures
        errors.len() == 1 ==> combined(errors) == Err::<(), ErrorModel>(errors[0]),
        errors.len() > 1 ==> (combined(errors) matches Err(ErrorModel::Pty(operation, words))
            && operation == SHUTDOWN_APPLICATION@ && text::holds_text(words, errors[i].text())),
{
    law_joined_texts_hold_every_error(errors, i);
}

/// An outcome's error comes behind those that there are; success adds none.
pub proof fn law_errors_are_kept_in_order(errors: Seq<ErrorModel>, outcome: AppResult<()>)
    ensures
        outcome is Ok ==> with_error(errors, outcome) == errors,
        outcome matches Err(error) ==> with_error(errors, outcome).len() == errors.len() + 1
            && with_error(errors, outcome).last() == error@ && with_error(
            errors,
            outcome,
        ).drop_last() == errors,
{
    if outcome is Err {
        assert(with_error(errors, outcome).drop_last() =~= errors);
    }
}

/// Errors are told apart by whether they say that a cleanup took too long: each kind has only
/// its own, and every error is in one of the two.
pub proof fn law_timeouts_are_told_apart(errors: Seq<ErrorModel>, timeouts: bool, i: int, j: int)
    ensures
        0 <= i < selected(errors, timeouts).len() ==> is_timeout(selected(errors, timeouts)[i])
            == timeouts,
        0 <= j < errors.len() ==> selected(errors, is_timeout(errors[j])).contains(errors[j]),
    decreases errors.len(),
{
    if errors.len() > 0 {
        let rest = errors.drop_last();
        law_timeouts_are_told_apart(rest, timeouts, i, j);
        if 0 <= j < errors.len() {
            let own = is_timeout(errors[j]);
            let before = selected(rest, own);
            let after = selected(errors, own);
            if j == errors.len() - 1 {
                assert(after[after.len() - 1] == errors[j]);
            } else {
                assert(rest[j] == errors[j]);
                let at = choose|at: int| 0 <= at < before.len() && before[at] == errors[j];
                assert(after[at] == before[at]);
            }
        }
    }
}

} // verus!
