use termdaw::config::{Config, Project, Settings, WorkFlow};

fn settings(workflow: Option<&str>) -> Settings {
    Settings {
        main: "project.lua".to_string(),
        buffer_length: None,
        project_samplerate: None,
        workflow: workflow.map(|w| w.to_string()),
    }
}

#[test]
fn settings_fall_back_to_defaults() {
    let s = settings(None);
    assert_eq!(s.buffer_length(), 1024);
    assert_eq!(s.project_samplerate(), 44100);
    assert_eq!(s.workflow(), WorkFlow::Manual);
}

#[test]
fn settings_hand_out_what_is_set() {
    let s = Settings {
        main: "main.lua".to_string(),
        buffer_length: Some(256),
        project_samplerate: Some(48000),
        workflow: Some("stream".to_string()),
    };
    assert_eq!(s.buffer_length(), 256);
    assert_eq!(s.project_samplerate(), 48000);
    assert_eq!(s.workflow(), WorkFlow::Stream);
}

#[test]
fn only_stream_selects_the_stream_workflow() {
    assert_eq!(settings(Some("stream")).workflow(), WorkFlow::Stream);
    assert_eq!(settings(Some("manual")).workflow(), WorkFlow::Manual);
    assert_eq!(settings(Some("Stream")).workflow(), WorkFlow::Manual);
    assert_eq!(settings(Some("")).workflow(), WorkFlow::Manual);
}

#[test]
fn project_name_defaults_to_unnamed() {
    assert_eq!(Project { name: None }.name(), "unnamed");
    assert_eq!(Project { name: Some("song".to_string()) }.name(), "song");
}

#[test]
fn workflow_spells_its_name() {
    assert_eq!(WorkFlow::Manual.to_string(), "manual");
    assert_eq!(WorkFlow::Stream.to_string(), "stream");
}

#[test]
fn config_holds_both_tables() {
    let c = Config { project: Project { name: None }, settings: settings(None) };
    assert_eq!(c.project.name(), "unnamed");
    assert_eq!(c.settings.main, "project.lua");
}
