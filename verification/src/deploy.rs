//! Telling the input framework to deploy again. The commands are run by
//! the caller; which command comes next, and what their outcomes mean, is
//! decided here.

use crate::paths::Platform;
use vstd::prelude::*;

verus! {

/// A command with its one argument.
#[derive(Debug, PartialEq, Eq)]
pub struct DeployCommand {
    pub program: String,
    pub argument: String,
}

/// How a command ended: it ran and exited, with what it wrote to its
/// standard error, or it could not be started, with the reason.
#[derive(Debug, PartialEq, Eq)]
pub enum CommandOutcome {
    Exited { success: bool, stderr: String },
    NotStarted { reason: String },
}

/// What the front end is told of a deploy.
#[derive(Debug, PartialEq, Eq)]
pub struct DeployResponse {
    pub success: bool,
    pub message: String,
}

/// What to do next in a deploy: run a command, or stop with the answer.
#[derive(Debug, PartialEq, Eq)]
pub enum DeployStep {
    Run(DeployCommand),
    Done(DeployResponse),
}

/// The mathematical value of a [`CommandOutcome`].
pub enum OutcomeModel {
    Exited { success: bool, stderr: Seq<char> },
    NotStarted { reason: Seq<char> },
}

impl View for CommandOutcome {
    type V = OutcomeModel;

    open spec fn view(&self) -> OutcomeModel {
        match self {
            CommandOutcome::Exited { success, stderr } => OutcomeModel::Exited {
                success: *success,
                stderr: stderr@,
            },
            CommandOutcome::NotStarted { reason } => OutcomeModel::NotStarted { reason: reason@ },
        }
    }
}

/// The mathematical value of a [`DeployStep`].
pub enum StepModel {
    Run { program: Seq<char>, argument: Seq<char> },
    Done { success: bool, message: Seq<char> },
}

impl View for DeployStep {
    type V = StepModel;

    open spec fn view(&self) -> StepModel {
        match self {
            DeployStep::Run(command) => StepModel::Run {
                program: command.program@,
                argument: command.argument@,
            },
            DeployStep::Done(response) => StepModel::Done {
                success: response.success,
                message: response.message@,
            },
        }
    }
}

/// The values of a list of outcomes.
pub open spec fn outcomes_model(outcomes: Seq<CommandOutcome>) -> Seq<OutcomeModel> {
    Seq::new(outcomes.len(), |i: int| outcomes[i]@)
}

/// Whether the command ran and exited with success.
pub open spec fn succeeded(outcome: OutcomeModel) -> bool {
    outcome matches OutcomeModel::Exited { success, .. } && success
}

/// What a failed command left to say: its standard error, or the reason
/// why it did not start.
pub open spec fn failure_detail(outcome: OutcomeModel) -> Seq<char> {
    match outcome {
        OutcomeModel::Exited { stderr, .. } => stderr,
        OutcomeModel::NotStarted { reason } => reason,
    }
}

/// The message of a failed deploy.
pub open spec fn failure_message(detail: Seq<char>) -> Seq<char> {
    "部署失败: "@ + detail
}

/// The step of a deploy that has one command: run it, then report success
/// with `done`, or failure with what the command left to say.
pub open spec fn single_step(
    program: Seq<char>,
    argument: Seq<char>,
    done: Seq<char>,
    outcomes: Seq<OutcomeModel>,
) -> StepModel {
    if outcomes.len() == 0 {
        StepModel::Run { program, argument }
    } else if succeeded(outcomes[0]) {
        StepModel::Done { success: true, message: done }
    } else {
        StepModel::Done { success: false, message: failure_message(failure_detail(outcomes[0])) }
    }
}

/// The step of a deploy on Linux: first Fcitx5, then, if that did not
/// succeed, IBus; if neither succeeds the deploy has failed.
pub open spec fn linux_step(outcomes: Seq<OutcomeModel>) -> StepModel {
    if outcomes.len() == 0 {
        StepModel::Run { program: "fcitx5-remote"@, argument: "-r"@ }
    } else if succeeded(outcomes[0]) {
        StepModel::Done { success: true, message: "Fcitx5 Rime 已重新部署"@ }
    } else if outcomes.len() == 1 {
        StepModel::Run { program: "ibus"@, argument: "write-cache"@ }
    } else if succeeded(outcomes[1]) {
        StepModel::Done { success: true, message: "IBus Rime 已重新部署"@ }
    } else {
        StepModel::Done { success: false, message: "部署失败: 未找到支持的输入框架"@ }
    }
}

/// The next step of a deploy on `platform`, after the commands run so far
/// ended with `outcomes`.
pub open spec fn deploy_step(platform: Platform, outcomes: Seq<OutcomeModel>) -> StepModel {
    match platform {
        Platform::MacOs => single_step(
            "/Library/Input Methods/Squirrel.app/Contents/MacOS/Squirrel"@,
            "--reload"@,
            "已通知鼠须管重新部署"@,
            outcomes,
        ),
        Platform::Linux => linux_step(outcomes),
        Platform::Windows => single_step(
            "C:\\Program Files (x86)\\Rime\\weasel-0.15.0\\WeaselDeployer.exe"@,
            "/deploy"@,
            "小狼毫已重新部署"@,
            outcomes,
        ),
        Platform::Unknown => StepModel::Done { success: false, message: "不支持的平台"@ },
    }
}

fn run(program: &str, argument: &str) -> (step: DeployStep)
    ensures
        step@ == (StepModel::Run { program: program@, argument: argument@ }),
{
    DeployStep::Run(
        DeployCommand { program: String::from_str(program), argument: String::from_str(argument) },
    )
}

fn done(success: bool, message: String) -> (step: DeployStep)
    ensures
        step@ == (StepModel::Done { success, message: message@ }),
{
    DeployStep::Done(DeployResponse { success, message })
}

fn has_succeeded(outcome: &CommandOutcome) -> (yes: bool)
    ensures
        yes == succeeded(outcome@),
{
    match outcome {
        CommandOutcome::Exited { success, .. } => *success,
        CommandOutcome::NotStarted { .. } => false,
    }
}

fn failed(outcome: &CommandOutcome) -> (step: DeployStep)
    ensures
        step@ == (StepModel::Done {
            success: false,
            message: failure_message(failure_detail(outcome@)),
        }),
{
    let detail = match outcome {
        CommandOutcome::Exited { stderr, .. } => stderr,
        CommandOutcome::NotStarted { reason } => reason,
    };
    done(false, String::from_str("部署失败: ").concat(detail.as_str()))
}

fn single(program: &str, argument: &str, message: &str, outcomes: &Vec<CommandOutcome>) -> (step:
    DeployStep)
    ensures
        step@ == single_step(program@, argument@, message@, outcomes_model(outcomes@)),
{
    if outcomes.len() == 0 {
        run(program, argument)
    } else if has_succeeded(&outcomes[0]) {
        done(true, String::from_str(message))
    } else {
        failed(&outcomes[0])
    }
}

/// The next step of a deploy on `platform`: `outcomes` holds how the
/// commands that were run so far ended, in their order. The caller runs
/// the command of a `Run` step, adds its outcome, and asks again, until the
/// step is `Done`.
pub fn trigger_deploy(platform: Platform, outcomes: &Vec<CommandOutcome>) -> (step: DeployStep)
    ensures
        step@ == deploy_step(platform, outcomes_model(outcomes@)),
{
    match platform {
        Platform::MacOs => single(
            "/Library/Input Methods/Squirrel.app/Contents/MacOS/Squirrel",
            "--reload",
            "已通知鼠须管重新部署",
            outcomes,
        ),
        Platform::Linux => {
            if outcomes.len() == 0 {
                run("fcitx5-remote", "-r")
            } else if has_succeeded(&outcomes[0]) {
                done(true, String::from_str("Fcitx5 Rime 已重新部署"))
            } else if outcomes.len() == 1 {
                run("ibus", "write-cache")
            } else if has_succeeded(&outcomes[1]) {
                done(true, String::from_str("IBus Rime 已重新部署"))
            } else {
                done(false, String::from_str("部署失败: 未找到支持的输入框架"))
            }
        },
        Platform::Windows => single(
            "C:\\Program Files (x86)\\Rime\\weasel-0.15.0\\WeaselDeployer.exe",
            "/deploy",
            "小狼毫已重新部署",
            outcomes,
        ),
        Platform::Unknown => done(false, String::from_str("不支持的平台")),
    }
}

/// A deploy asks for at most two commands: once two have ended, the next
/// step is the answer. It reports success only if a command succeeded.
pub proof fn lemma_deploy_ends(platform: Platform, outcomes: Seq<OutcomeModel>)
    ensures
        outcomes.len() >= 2 ==> deploy_step(platform, outcomes) is Done,
        platform != Platform::Linux && outcomes.len() >= 1 ==> deploy_step(platform, outcomes) is Done,
        deploy_step(platform, outcomes) matches StepModel::Done { success, .. } && success
            ==> exists|i: int| 0 <= i < outcomes.len() && succeeded(#[trigger] outcomes[i]),
{
    if deploy_step(platform, outcomes) matches StepModel::Done { success, .. } && success {
        if succeeded(outcomes[0]) {
        } else {
            assert(succeeded(outcomes[1]));
        }
    }
}

} // verus!
