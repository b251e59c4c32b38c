use rime_config::deploy::{trigger_deploy, CommandOutcome, DeployCommand, DeployResponse, DeployStep};
use rime_config::paths::{
    config_dir_below, get_base_filename, get_config_path, get_custom_filename,
    get_rime_config_dir, home_or_empty, ConfigPath, Platform,
};
use rime_config::tree::Tree;
use rime_config::writer::{
    first_write_action, next_write_step, plan_write, write_custom_config, WriteAction, WriteError,
    WriteErrorKind, WriteEvent, WriteProgress,
};

fn path(base: &str, segments: &[&str]) -> ConfigPath {
    ConfigPath { base: base.to_string(), segments: segments.iter().map(|s| s.to_string()).collect() }
}

#[test]
fn file_names() {
    assert_eq!(get_custom_filename("default"), "default.custom.yaml");
    assert_eq!(get_custom_filename("rime_ice"), "rime_ice.custom.yaml");
    assert_eq!(get_custom_filename(""), ".custom.yaml");
    assert_eq!(get_base_filename("default"), "default.yaml");
    assert_eq!(get_base_filename("squirrel"), "squirrel.yaml");
    assert_eq!(get_base_filename("weasel"), "weasel.yaml");
    assert_eq!(get_base_filename("rime_ice"), "rime_ice.schema.yaml");
    assert_eq!(get_base_filename("Default"), "Default.schema.yaml");
    assert_eq!(get_base_filename("default "), "default .schema.yaml");
    assert_eq!(get_base_filename(""), ".schema.yaml");
}

#[test]
fn platform_rule_for_the_root() {
    let home = || "/home/u".to_string();
    assert_eq!(config_dir_below(Platform::MacOs, None, home(), None), path("/home/u", &["Library", "Rime"]));
    assert_eq!(config_dir_below(Platform::Linux, None, home(), None), path("/home/u", &[".config", "fcitx", "rime"]));
    assert_eq!(
        config_dir_below(Platform::Windows, None, home(), Some("C:\\Users\\u\\AppData\\Roaming".to_string())),
        path("C:\\Users\\u\\AppData\\Roaming", &["Rime"])
    );
    assert_eq!(config_dir_below(Platform::Windows, None, home(), None), path("/home/u", &["AppData", "Roaming", "Rime"]));
    assert_eq!(config_dir_below(Platform::Unknown, None, home(), None), path("/home/u", &["Library", "Rime"]));
    assert_eq!(config_dir_below(Platform::Linux, None, String::new(), None), path("", &[".config", "fcitx", "rime"]));
    assert_eq!(config_dir_below(Platform::MacOs, None, home(), Some("ignored".to_string())), path("/home/u", &["Library", "Rime"]));
}

#[test]
fn override_comes_first() {
    for platform in [Platform::MacOs, Platform::Linux, Platform::Windows, Platform::Unknown] {
        assert_eq!(
            config_dir_below(platform, Some("/tmp/rime".to_string()), "/home/u".to_string(), Some("x".to_string())),
            path("/tmp/rime", &[])
        );
        assert_eq!(get_rime_config_dir(platform, Some("/tmp/rime".to_string()), None), path("/tmp/rime", &[]));
    }
    let root = get_rime_config_dir(Platform::Linux, None, None);
    assert_eq!(root.segments, vec![".config".to_string(), "fcitx".to_string(), "rime".to_string()]);
    let root = get_rime_config_dir(Platform::Windows, None, Some("D:\\data".to_string()));
    assert_eq!(root, path("D:\\data", &["Rime"]));
    assert_eq!(home_or_empty(None), "");
    assert_eq!(home_or_empty(Some("/h".to_string())), "/h");
}

#[test]
fn paths_in_the_root() {
    let root = path("/r", &["a"]);
    assert_eq!(get_config_path(&root, "installation.yaml"), path("/r", &["a", "installation.yaml"]));
    assert_eq!(root.join("x").join("y"), path("/r", &["a", "x", "y"]));
    assert_eq!(root.clone(), root);
    assert_eq!(ConfigPath::new("/r".to_string()), path("/r", &[]));
}

#[test]
fn write_plan_for_a_patch() {
    let root = path("/r", &["Rime"]);
    let patch = Tree::Mapping(vec![("a".to_string(), Tree::Int(1))]);
    let plan = write_custom_config(&root, "rime_ice", &patch, 1700000000123);
    assert_eq!(plan.directory, root);
    assert_eq!(plan.target, path("/r", &["Rime", "rime_ice.custom.yaml"]));
    assert_eq!(plan.backup, path("/r", &["Rime", "rime_ice.custom.yaml.bak"]));
    assert_eq!(plan.temporary, path("/r", &["Rime", "rime_ice.custom.yaml.tmp.1700000000123"]));
    assert_eq!(plan.content, "patch:\n  a: 1\n");
    let plan = plan_write(&root, "f.txt", "text".to_string(), 0);
    assert_eq!(plan.temporary, path("/r", &["Rime", "f.txt.tmp.0"]));
    assert_eq!(plan.backup, path("/r", &["Rime", "f.txt.bak"]));
    assert_eq!(plan.content, "text");
    let plan = plan_write(&root, "f", String::new(), u128::MAX);
    assert_eq!(plan.temporary, path("/r", &["Rime", "f.tmp.340282366920938463463374607431768211455"]));
}

fn fail(reason: &str) -> WriteEvent {
    WriteEvent::Failed(reason.to_string())
}

fn error(kind: WriteErrorKind, detail: &str) -> WriteProgress {
    WriteProgress::Finished(Err(WriteError { kind, detail: detail.to_string() }))
}

#[test]
fn a_save_step_by_step() {
    assert_eq!(first_write_action(), WriteAction::CreateDirectory);
    assert_eq!(next_write_step(WriteAction::CreateDirectory, WriteEvent::Succeeded), WriteProgress::Next(WriteAction::ProbeTarget));
    assert_eq!(next_write_step(WriteAction::ProbeTarget, WriteEvent::Found(true)), WriteProgress::Next(WriteAction::CopyToBackup));
    assert_eq!(next_write_step(WriteAction::ProbeTarget, WriteEvent::Found(false)), WriteProgress::Next(WriteAction::WriteTemporary));
    assert_eq!(next_write_step(WriteAction::ProbeTarget, fail("denied")), WriteProgress::Next(WriteAction::WriteTemporary));
    assert_eq!(next_write_step(WriteAction::CopyToBackup, WriteEvent::Succeeded), WriteProgress::Next(WriteAction::WriteTemporary));
    assert_eq!(next_write_step(WriteAction::CopyToBackup, fail("disk full")), WriteProgress::Next(WriteAction::WriteTemporary));
    assert_eq!(next_write_step(WriteAction::WriteTemporary, WriteEvent::Succeeded), WriteProgress::Next(WriteAction::RenameTemporary));
    assert_eq!(next_write_step(WriteAction::RenameTemporary, WriteEvent::Succeeded), WriteProgress::Finished(Ok(())));
}

#[test]
fn failures_of_a_save() {
    assert_eq!(next_write_step(WriteAction::CreateDirectory, fail("denied")), error(WriteErrorKind::DirectoryCreate, "denied"));
    assert_eq!(next_write_step(WriteAction::WriteTemporary, fail("full")), error(WriteErrorKind::TempWrite, "full"));
    assert_eq!(next_write_step(WriteAction::RenameTemporary, fail("busy")), error(WriteErrorKind::Rename, "busy"));
    let message = |kind, detail: &str| WriteError { kind, detail: detail.to_string() }.message();
    assert_eq!(message(WriteErrorKind::DirectoryCreate, "denied"), "Failed to create directory: denied");
    assert_eq!(message(WriteErrorKind::TempWrite, "full"), "Failed to write temp file: full");
    assert_eq!(message(WriteErrorKind::Rename, ""), "Failed to rename temp file: ");
}

fn exited(success: bool, stderr: &str) -> CommandOutcome {
    CommandOutcome::Exited { success, stderr: stderr.to_string() }
}

fn run(program: &str, argument: &str) -> DeployStep {
    DeployStep::Run(DeployCommand { program: program.to_string(), argument: argument.to_string() })
}

fn done(success: bool, message: &str) -> DeployStep {
    DeployStep::Done(DeployResponse { success, message: message.to_string() })
}

#[test]
fn deploy_with_one_command() {
    let squirrel = "/Library/Input Methods/Squirrel.app/Contents/MacOS/Squirrel";
    assert_eq!(trigger_deploy(Platform::MacOs, &vec![]), run(squirrel, "--reload"));
    assert_eq!(trigger_deploy(Platform::MacOs, &vec![exited(true, "noise")]), done(true, "已通知鼠须管重新部署"));
    assert_eq!(trigger_deploy(Platform::MacOs, &vec![exited(false, "no such app")]), done(false, "部署失败: no such app"));
    let not_started = CommandOutcome::NotStarted { reason: "not found".to_string() };
    assert_eq!(trigger_deploy(Platform::MacOs, &vec![not_started]), done(false, "部署失败: not found"));
    let weasel = "C:\\Program Files (x86)\\Rime\\weasel-0.15.0\\WeaselDeployer.exe";
    assert_eq!(trigger_deploy(Platform::Windows, &vec![]), run(weasel, "/deploy"));
    assert_eq!(trigger_deploy(Platform::Windows, &vec![exited(true, "")]), done(true, "小狼毫已重新部署"));
    assert_eq!(trigger_deploy(Platform::Windows, &vec![exited(false, "")]), done(false, "部署失败: "));
    assert_eq!(trigger_deploy(Platform::Unknown, &vec![]), done(false, "不支持的平台"));
    assert_eq!(trigger_deploy(Platform::Unknown, &vec![exited(true, "")]), done(false, "不支持的平台"));
}

#[test]
fn deploy_on_linux_tries_two_frameworks() {
    let not_started = || CommandOutcome::NotStarted { reason: "not found".to_string() };
    assert_eq!(trigger_deploy(Platform::Linux, &vec![]), run("fcitx5-remote", "-r"));
    assert_eq!(trigger_deploy(Platform::Linux, &vec![exited(true, "")]), done(true, "Fcitx5 Rime 已重新部署"));
    assert_eq!(trigger_deploy(Platform::Linux, &vec![exited(false, "x")]), run("ibus", "write-cache"));
    assert_eq!(trigger_deploy(Platform::Linux, &vec![not_started()]), run("ibus", "write-cache"));
    assert_eq!(trigger_deploy(Platform::Linux, &vec![not_started(), exited(true, "")]), done(true, "IBus Rime 已重新部署"));
    assert_eq!(trigger_deploy(Platform::Linux, &vec![exited(false, "x"), exited(false, "y")]), done(false, "部署失败: 未找到支持的输入框架"));
    assert_eq!(trigger_deploy(Platform::Linux, &vec![exited(false, "x"), not_started()]), done(false, "部署失败: 未找到支持的输入框架"));
    assert_eq!(trigger_deploy(Platform::Linux, &vec![exited(true, ""), exited(false, "")]), done(true, "Fcitx5 Rime 已重新部署"));
}
