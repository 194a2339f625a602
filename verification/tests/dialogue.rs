use wg_toggle::error::{Error, Failure};
use wg_toggle::session::{Mode, Reply, Request, Session, Settings, Stage};
use wg_toggle::status::StatusReport;
use wg_toggle::tunnel::{Command, Verb};

const DIR: &str = "/etc/amnezia/amneziawg";
const STATE: &str = "/home/alice/.cache/wg-toggle-state";

/// The world outside, as far as a session can tell.
struct World {
    active: Option<String>,
    stored: Option<String>,
    names: Option<Vec<String>>,
    writable: bool,
    tool_works: bool,
    printed: Vec<StatusReport>,
}

fn world(active: Option<&str>, stored: Option<&str>, names: Option<&[&str]>) -> World {
    World {
        active: active.map(|name| name.to_string()),
        stored: stored.map(|text| text.to_string()),
        names: names.map(|list| list.iter().map(|name| name.to_string()).collect()),
        writable: true,
        tool_works: true,
        printed: Vec::new(),
    }
}

fn stem(path: &str) -> String {
    let file = path.rsplit('/').next().unwrap();
    file.strip_suffix(".conf").unwrap().to_string()
}

/// Runs one invocation against the world; returns the requests in order.
fn run(mode: Mode, world: &mut World) -> Vec<Request> {
    let settings = Settings::new(Some(DIR.to_string()), STATE.to_string());
    let mut session = Session::start(mode, settings);
    let mut requests = Vec::new();
    loop {
        assert!(requests.len() < 12, "an invocation has at most twelve requests");
        let request = session.request();
        let reply = match &request {
            Request::Probe => match &world.active {
                Some(name) => Reply::Probed { success: true, output: format!("{}\n", name) },
                None => Reply::Probed { success: true, output: String::new() },
            },
            Request::LoadSelection { path } => {
                assert_eq!(path, STATE);
                Reply::Loaded(world.stored.clone())
            }
            Request::ListConfigs { dir } => {
                assert_eq!(dir, DIR);
                Reply::Listed(world.names.clone())
            }
            Request::SaveSelection { path, contents } => {
                assert_eq!(path, STATE);
                if world.writable {
                    world.stored = Some(contents.clone());
                }
                Reply::Saved(world.writable)
            }
            Request::Run(command) => {
                if world.tool_works {
                    match command.verb {
                        Verb::Up => world.active = Some(stem(&command.config_path)),
                        Verb::Down => world.active = None,
                    }
                }
                Reply::Completed
            }
            Request::Print(report) => {
                world.printed.push(StatusReport::compose(
                    if report.is_connected() { world.active.as_deref() } else { None },
                    world.stored.as_deref().unwrap_or("").trim(),
                ));
                assert_eq!(world.printed.last().unwrap(), report);
                Reply::Completed
            }
            Request::Exit(_) => {
                assert!(session.is_over());
                requests.push(request);
                return requests;
            }
        };
        assert!(!session.is_over());
        requests.push(request);
        session = session.advance(reply);
    }
}

fn load() -> Request {
    Request::LoadSelection { path: STATE.to_string() }
}

fn list() -> Request {
    Request::ListConfigs { dir: DIR.to_string() }
}

fn save(contents: &str) -> Request {
    Request::SaveSelection { path: STATE.to_string(), contents: contents.to_string() }
}

fn tool(verb: Verb, identifier: &str) -> Request {
    Request::Run(Command { verb, config_path: format!("{}/{}.conf", DIR, identifier) })
}

fn print(active: Option<&str>, selected: &str) -> Request {
    Request::Print(StatusReport::compose(active, selected))
}

fn unreadable() -> Request {
    Request::Exit(Err(Failure {
        error: Error::DirectoryUnreadable,
        message: format!("the configuration directory cannot be read: {}", DIR),
    }))
}

fn unwritable() -> Request {
    Request::Exit(Err(Failure {
        error: Error::StoreWriteFailure,
        message: format!("the selection cannot be saved: {}", STATE),
    }))
}

fn count_runs(requests: &[Request], verb: Verb) -> usize {
    requests.iter().filter(|r| matches!(r, Request::Run(command) if command.verb == verb)).count()
}

#[test]
fn mode_is_read_off_the_first_argument() {
    assert_eq!(Mode::parse(None), Mode::Toggle);
    assert_eq!(Mode::parse(Some("--status")), Mode::Status);
    assert_eq!(Mode::parse(Some("next")), Mode::Next);
    assert_eq!(Mode::parse(Some("previous")), Mode::Previous);
    assert_eq!(Mode::parse(Some("toggle")), Mode::Toggle);
    assert_eq!(Mode::parse(Some("")), Mode::Toggle);
    assert_eq!(Mode::parse(Some("Next")), Mode::Toggle);
    assert_eq!(Mode::parse(Some("--status ")), Mode::Toggle);
    assert_eq!(Mode::parse(Some("status")), Mode::Toggle);
    assert_eq!(Mode::parse(Some("prev")), Mode::Toggle);
}

#[test]
fn modes_move_the_selection_by_their_direction() {
    assert_eq!(Mode::Next.direction(), 1);
    assert_eq!(Mode::Previous.direction(), -1);
    assert_eq!(Mode::Status.direction(), 0);
    assert_eq!(Mode::Toggle.direction(), 0);
}

#[test]
fn settings_default_to_the_system_directory() {
    let settings = Settings::new(None, STATE.to_string());
    assert_eq!(settings.config_dir, "/etc/amnezia/amneziawg");
    assert_eq!(settings.state_path, STATE);
    let named = Settings::new(Some("/srv/wg".to_string()), "/tmp/wg-toggle-state".to_string());
    assert_eq!(named.config_dir, "/srv/wg");
    assert_eq!(named.state_path, "/tmp/wg-toggle-state");
    let empty = Settings::new(Some(String::new()), STATE.to_string());
    assert_eq!(empty.config_dir, "");
}

#[test]
fn sessions_start_at_the_first_stage_of_their_mode() {
    let start = |mode| Session::start(mode, Settings::new(None, STATE.to_string())).stage();
    assert_eq!(start(Mode::Status), Stage::StatusProbe);
    assert_eq!(start(Mode::Toggle), Stage::ToggleProbe);
    assert_eq!(start(Mode::Next), Stage::CycleList);
    assert_eq!(start(Mode::Previous), Stage::CycleList);
}

#[test]
fn status_adopts_and_saves_the_first_config() {
    let mut world = world(None, Some(""), Some(&["b.conf", "a.conf", "c.conf"]));
    let requests = run(Mode::Status, &mut world);
    assert_eq!(
        requests,
        vec![Request::Probe, load(), list(), save("a"), print(None, "a"), Request::Exit(Ok(()))]
    );
    assert_eq!(world.stored.as_deref(), Some("a"));
}

#[test]
fn status_adopts_where_the_state_file_is_missing() {
    let mut world = world(None, None, Some(&["b.conf", "a.conf", "c.conf"]));
    let requests = run(Mode::Status, &mut world);
    assert_eq!(requests[3], save("a"));
    assert_eq!(world.stored.as_deref(), Some("a"));
}

#[test]
fn status_reports_even_if_the_default_cannot_be_saved() {
    let mut world = world(None, None, Some(&["b.conf", "a.conf"]));
    world.writable = false;
    let settings = Settings::new(Some(DIR.to_string()), STATE.to_string());
    let session = Session::start(Mode::Status, settings)
        .advance(Reply::Probed { success: true, output: String::new() })
        .advance(Reply::Loaded(None))
        .advance(Reply::Listed(world.names.clone()));
    assert_eq!(session.request(), save("a"));
    let session = session.advance(Reply::Saved(false));
    assert_eq!(session.request(), print(None, "a"));
    let session = session.advance(Reply::Completed);
    assert_eq!(session.request(), Request::Exit(Ok(())));
}

#[test]
fn status_with_active_interface_is_connected() {
    let mut world = world(Some("wg0"), Some(""), Some(&[]));
    let requests = run(Mode::Status, &mut world);
    assert_eq!(
        requests,
        vec![Request::Probe, load(), list(), print(Some("wg0"), ""), Request::Exit(Ok(()))]
    );
    match &requests[3] {
        Request::Print(report) => {
            assert_eq!(report.class, "connected");
            assert_eq!(report.percentage, 100);
            assert!(report.text.contains("wg0"));
        }
        other => panic!("{:?}", other),
    }
}

#[test]
fn status_without_interface_shows_the_selection() {
    let mut world = world(None, Some("work\n"), Some(&["home.conf", "work.conf"]));
    let requests = run(Mode::Status, &mut world);
    assert_eq!(
        requests,
        vec![Request::Probe, load(), list(), print(None, "work"), Request::Exit(Ok(()))]
    );
    match &requests[3] {
        Request::Print(report) => {
            assert_eq!(report.class, "disconnected");
            assert_eq!(report.percentage, 0);
            assert!(report.text.contains("work"));
        }
        other => panic!("{:?}", other),
    }
    assert_eq!(world.stored.as_deref(), Some("work\n"));
}

#[test]
fn status_keeps_a_selection_that_is_gone() {
    let mut world = world(None, Some("gone"), Some(&["home.conf"]));
    let requests = run(Mode::Status, &mut world);
    assert_eq!(requests[3], print(None, "gone"));
}

#[test]
fn status_survives_an_unreadable_directory() {
    let mut world = world(None, None, None);
    let requests = run(Mode::Status, &mut world);
    assert_eq!(
        requests,
        vec![Request::Probe, load(), list(), print(None, ""), Request::Exit(Ok(()))]
    );
    assert_eq!(world.stored, None);
}

#[test]
fn status_takes_a_failed_probe_for_no_interface() {
    let settings = Settings::new(Some(DIR.to_string()), STATE.to_string());
    let session = Session::start(Mode::Status, settings)
        .advance(Reply::Probed { success: false, output: "wg0\n".to_string() })
        .advance(Reply::Loaded(Some("work".to_string())))
        .advance(Reply::Listed(Some(vec!["work.conf".to_string()])));
    assert_eq!(session.request(), print(None, "work"));
}

#[test]
fn toggle_brings_the_active_tunnel_down() {
    let mut world = world(Some("wg0"), Some("work"), Some(&["work.conf", "wg0.conf"]));
    let requests = run(Mode::Toggle, &mut world);
    assert_eq!(
        requests,
        vec![
            Request::Probe,
            load(),
            tool(Verb::Down, "wg0"),
            Request::Probe,
            load(),
            list(),
            print(None, "work"),
            Request::Exit(Ok(())),
        ]
    );
    assert_eq!(count_runs(&requests, Verb::Down), 1);
    assert_eq!(count_runs(&requests, Verb::Up), 0);
    assert_eq!(world.active, None);
}

#[test]
fn toggle_reports_what_the_fresh_probe_finds() {
    let mut world = world(Some("wg0"), Some("work"), Some(&["work.conf"]));
    world.tool_works = false;
    let requests = run(Mode::Toggle, &mut world);
    assert_eq!(count_runs(&requests, Verb::Down), 1);
    assert_eq!(requests[6], print(Some("wg0"), "work"));
}

#[test]
fn toggle_brings_the_selection_up() {
    let mut world = world(None, Some("work\n"), Some(&["home.conf", "work.conf"]));
    let requests = run(Mode::Toggle, &mut world);
    assert_eq!(
        requests,
        vec![
            Request::Probe,
            load(),
            tool(Verb::Up, "work"),
            Request::Probe,
            load(),
            list(),
            print(Some("work"), "work"),
            Request::Exit(Ok(())),
        ]
    );
    assert_eq!(count_runs(&requests, Verb::Up), 1);
    assert_eq!(count_runs(&requests, Verb::Down), 0);
}

#[test]
fn toggle_with_nothing_selected_runs_nothing() {
    let mut world = world(None, Some(""), Some(&[]));
    let requests = run(Mode::Toggle, &mut world);
    assert_eq!(
        requests,
        vec![
            Request::Probe,
            load(),
            Request::Probe,
            load(),
            list(),
            print(None, ""),
            Request::Exit(Ok(())),
        ]
    );
    assert_eq!(count_runs(&requests, Verb::Up) + count_runs(&requests, Verb::Down), 0);
    match &requests[5] {
        Request::Print(report) => {
            assert_eq!(report.class, "disconnected");
            assert_eq!(report.text, "\u{f09c} ");
        }
        other => panic!("{:?}", other),
    }
}

#[test]
fn toggle_with_nothing_selected_lets_status_adopt() {
    let mut world = world(None, None, Some(&["a.conf"]));
    let requests = run(Mode::Toggle, &mut world);
    assert_eq!(count_runs(&requests, Verb::Up) + count_runs(&requests, Verb::Down), 0);
    assert_eq!(requests[5], save("a"));
    assert_eq!(requests[6], print(None, "a"));
}

#[test]
fn next_moves_the_selection_forward() {
    let mut world = world(None, Some("a"), Some(&["b.conf", "a.conf", "c.conf"]));
    let requests = run(Mode::Next, &mut world);
    assert_eq!(
        requests,
        vec![
            list(),
            load(),
            Request::Probe,
            save("b"),
            Request::Probe,
            load(),
            list(),
            print(None, "b"),
            Request::Exit(Ok(())),
        ]
    );
    assert_eq!(world.stored.as_deref(), Some("b"));
}

#[test]
fn previous_moves_the_selection_backward() {
    let mut world = world(None, Some("a"), Some(&["b.conf", "a.conf", "c.conf"]));
    let requests = run(Mode::Previous, &mut world);
    assert_eq!(requests[3], save("c"));
    assert_eq!(world.stored.as_deref(), Some("c"));
    let requests = run(Mode::Previous, &mut world);
    assert_eq!(requests[3], save("b"));
}

#[test]
fn next_three_times_comes_back() {
    let mut world = world(None, Some("b"), Some(&["b.conf", "a.conf", "c.conf"]));
    run(Mode::Next, &mut world);
    assert_eq!(world.stored.as_deref(), Some("c"));
    run(Mode::Next, &mut world);
    assert_eq!(world.stored.as_deref(), Some("a"));
    run(Mode::Next, &mut world);
    assert_eq!(world.stored.as_deref(), Some("b"));
}

#[test]
fn cycling_switches_the_active_tunnel() {
    let mut world = world(Some("a"), Some("a"), Some(&["b.conf", "a.conf", "c.conf"]));
    let requests = run(Mode::Next, &mut world);
    assert_eq!(
        requests,
        vec![
            list(),
            load(),
            Request::Probe,
            save("b"),
            tool(Verb::Down, "a"),
            tool(Verb::Up, "b"),
            Request::Probe,
            load(),
            list(),
            print(Some("b"), "b"),
            Request::Exit(Ok(())),
        ]
    );
    assert_eq!(world.active.as_deref(), Some("b"));
}

#[test]
fn cycling_brings_down_the_interface_that_is_up() {
    let mut world = world(Some("wg0"), Some("c"), Some(&["b.conf", "a.conf", "c.conf"]));
    let requests = run(Mode::Previous, &mut world);
    assert_eq!(requests[3], save("b"));
    assert_eq!(requests[4], tool(Verb::Down, "wg0"));
    assert_eq!(requests[5], tool(Verb::Up, "b"));
}

#[test]
fn cycling_from_a_missing_selection_starts_at_the_first() {
    let mut world = world(None, Some("gone"), Some(&["b.conf", "a.conf", "c.conf"]));
    let requests = run(Mode::Next, &mut world);
    assert_eq!(requests[3], save("b"));
    assert_eq!(requests.last(), Some(&Request::Exit(Ok(()))));
    let mut world = world_with_missing();
    let requests = run(Mode::Previous, &mut world);
    assert_eq!(requests[3], save("c"));
    assert_eq!(requests.last(), Some(&Request::Exit(Ok(()))));
}

fn world_with_missing() -> World {
    world(None, None, Some(&["b.conf", "a.conf", "c.conf"]))
}

#[test]
fn cycling_fails_where_the_directory_is_unreadable() {
    let mut world = world(Some("wg0"), Some("a"), None);
    let requests = run(Mode::Next, &mut world);
    assert_eq!(requests, vec![list(), unreadable()]);
    let requests = run(Mode::Previous, &mut world);
    assert_eq!(requests, vec![list(), unreadable()]);
    assert!(world.printed.is_empty());
}

#[test]
fn cycling_fails_where_the_selection_cannot_be_saved() {
    let mut world = world(Some("a"), Some("a"), Some(&["a.conf", "b.conf"]));
    world.writable = false;
    let requests = run(Mode::Next, &mut world);
    assert_eq!(
        requests,
        vec![list(), load(), Request::Probe, save("b"), unwritable()]
    );
    assert_eq!(world.active.as_deref(), Some("a"));
    assert!(world.printed.is_empty());
}

#[test]
fn cycling_without_configs_does_nothing() {
    let mut world = world(Some("wg0"), Some("a"), Some(&["notes.txt"]));
    let requests = run(Mode::Next, &mut world);
    assert_eq!(requests, vec![list(), Request::Exit(Ok(()))]);
    let mut empty = world_without_entries();
    let requests = run(Mode::Previous, &mut empty);
    assert_eq!(requests, vec![list(), Request::Exit(Ok(()))]);
    assert!(empty.printed.is_empty());
}

fn world_without_entries() -> World {
    world(None, None, Some(&[]))
}

#[test]
fn cycling_failure_names_the_directory() {
    let settings = Settings::new(Some("/srv/tunnels".to_string()), STATE.to_string());
    let session = Session::start(Mode::Next, settings).advance(Reply::Listed(None));
    match session.request() {
        Request::Exit(Err(failure)) => {
            assert_eq!(failure.error, Error::DirectoryUnreadable);
            assert!(failure.message.contains("/srv/tunnels"));
            assert_eq!(
                failure.message,
                "the configuration directory cannot be read: /srv/tunnels"
            );
        }
        other => panic!("{:?}", other),
    }
}

#[test]
fn status_reads_the_first_line_of_the_state_file() {
    let world = world(None, Some("work\nhome\n"), Some(&["home.conf", "work.conf"]));
    let settings = Settings::new(Some(DIR.to_string()), STATE.to_string());
    let session = Session::start(Mode::Status, settings)
        .advance(Reply::Probed { success: true, output: String::new() })
        .advance(Reply::Loaded(world.stored.clone()))
        .advance(Reply::Listed(world.names.clone()));
    assert_eq!(session.request(), print(None, "work"));
}

#[test]
fn stray_replies_change_nothing() {
    let settings = Settings::new(Some(DIR.to_string()), STATE.to_string());
    let session = Session::start(Mode::Toggle, settings);
    let session = session.advance(Reply::Completed);
    assert_eq!(session.stage(), Stage::ToggleProbe);
    let session = session.advance(Reply::Loaded(Some("work".to_string())));
    assert_eq!(session.stage(), Stage::ToggleProbe);
    let session = session.advance(Reply::Saved(true));
    assert_eq!(session.stage(), Stage::ToggleProbe);
    let session = session.advance(Reply::Listed(None));
    assert_eq!(session.stage(), Stage::ToggleProbe);
    assert_eq!(session.request(), Request::Probe);
}

#[test]
fn finished_sessions_stay_finished() {
    let settings = Settings::new(Some(DIR.to_string()), STATE.to_string());
    let session = Session::start(Mode::Next, settings).advance(Reply::Listed(None));
    assert_eq!(session.stage(), Stage::Failed(Error::DirectoryUnreadable));
    assert!(session.is_over());
    let session = session.advance(Reply::Listed(Some(vec!["a.conf".to_string()])));
    assert_eq!(session.stage(), Stage::Failed(Error::DirectoryUnreadable));
    let session = session.advance(Reply::Completed);
    assert_eq!(session.request(), unreadable());
}
