//! The launchd agent, and how it is installed and uninstalled.

use moji::clock::{Instant, MILLISECOND, SECOND};
use moji::service::{
    agent_plist, domain, escape, housing, job, layout, Housing, Install, Installed, Layout, Outcome,
    ServiceError, Task, Uninstall, UnloadWait, WaitStep, LABEL, REFUSED, UNLOAD_POLL,
    UNLOAD_TIMEOUT,
};

fn bundled() -> String {
    agent_plist(
        "/Applications/Moji.app/Contents/MacOS/moji",
        "/Users/tester/Library/Logs/moji/moji.log",
        "/Users/tester/Library/Logs/moji/moji.err.log",
    )
}

#[test]
fn the_agent_and_its_logs_live_under_the_home_directory() {
    let Layout { agent, log, errors } = layout("/Users/tester");

    assert_eq!(
        agent,
        "/Users/tester/Library/LaunchAgents/dev.pkarpovich.moji.plist"
    );
    assert_eq!(log, "/Users/tester/Library/Logs/moji/moji.log");
    assert_eq!(
        errors,
        "/Users/tester/Library/Logs/moji/moji.err.log"
    );
}

#[test]
fn the_agent_runs_the_daemon_it_was_given() {
    let plist = bundled();

    assert!(plist.contains("<string>dev.pkarpovich.moji</string>"));
    assert!(plist.contains("<string>/Applications/Moji.app/Contents/MacOS/moji</string>"));
    assert!(
        plist.contains("<string>run</string>"),
        "the agent has to start the daemon, not the bare binary"
    );
    assert!(plist.contains("<string>/Users/tester/Library/Logs/moji/moji.log</string>"));
    assert!(plist.contains("<string>/Users/tester/Library/Logs/moji/moji.err.log</string>"));
}

#[test]
fn the_agent_lives_only_while_the_binary_it_names_is_there() {
    let plist = bundled();

    assert!(plist.contains("<key>PathState</key>"));
    assert!(
        plist.contains("<key>/Applications/Moji.app/Contents/MacOS/moji</key>\n\t\t\t<true/>")
    );
    assert!(
        !plist.contains("<key>KeepAlive</key>\n\t<true/>"),
        "a plain KeepAlive restarts the daemon while the upgrade is still swapping the bundle"
    );
}

#[test]
fn a_path_that_needs_escaping_still_yields_a_parsable_agent() {
    let plist = agent_plist(
        "/Users/a&b/Moji.app/Contents/MacOS/moji",
        "/Users/a&b/log",
        "/Users/a&b/err",
    );

    assert!(plist.contains("/Users/a&amp;b/Moji.app/Contents/MacOS/moji"));
    assert!(!plist.contains("/Users/a&b/"));
}

#[test]
fn escaping_leaves_an_ordinary_path_untouched() {
    assert_eq!(escape("/Applications/Moji.app"), "/Applications/Moji.app");
    assert_eq!(escape("a<b>c&d"), "a&lt;b&gt;c&amp;d");
}

#[test]
fn a_binary_inside_an_application_bundle_keeps_its_permissions() {
    assert_eq!(
        housing("/Applications/Moji.app/Contents/MacOS/moji"),
        Housing::Bundle
    );
}

#[test]
fn a_binary_in_the_homebrew_cellar_does_not() {
    assert_eq!(
        housing("/opt/homebrew/Cellar/moji/0.1.0/bin/moji"),
        Housing::Loose
    );
    assert_eq!(housing("target/debug/moji"), Housing::Loose);
}

#[test]
fn a_directory_merely_containing_app_is_not_a_bundle() {
    assert_eq!(
        housing("/Users/tester/apps/moji/bin/moji"),
        Housing::Loose
    );
}

#[test]
fn removing_a_file_that_was_never_there_is_not_a_failure() {
    let uninstall = done(done(started_uninstall()));
    assert_eq!(
        uninstall.task(),
        Task::Remove {
            path: "/Users/tester/Library/LaunchAgents/dev.pkarpovich.moji.plist".to_string()
        }
    );

    let missing = Outcome::Missing {
        reason: "No such file or directory (os error 2)".to_string(),
    };
    assert!(uninstall.on_outcome(missing).is_ok());
}

#[test]
fn what_an_installation_needs_and_does_not_find_is_a_failure() {
    let missing = || Outcome::Missing {
        reason: "not there".to_string(),
    };

    assert_eq!(
        started().on_outcome(missing()).err(),
        Some(ServiceError::Launchctl {
            reason: "not there".to_string()
        })
    );
    assert_eq!(
        started_uninstall().on_outcome(missing()).err(),
        Some(ServiceError::Launchctl {
            reason: "not there".to_string()
        })
    );
}

fn started() -> Install {
    let Ok(install) = Install::start(
        Some("/Users/tester".to_string()),
        Ok("/Applications/Moji.app/Contents/MacOS/moji".to_string()),
    ) else {
        panic!("the installation does not start");
    };
    install
}

fn went_on(install: Install) -> Install {
    let Ok(install) = install.on_outcome(Outcome::Done) else {
        panic!("a task that was done fails the installation");
    };
    install
}

fn started_uninstall() -> Uninstall {
    let Ok(uninstall) = Uninstall::start(Some("/Users/tester".to_string())) else {
        panic!("the uninstallation does not start");
    };
    uninstall
}

fn done(uninstall: Uninstall) -> Uninstall {
    let Ok(uninstall) = uninstall.on_outcome(Outcome::Done) else {
        panic!("a task that was done fails the uninstallation");
    };
    uninstall
}

fn failed(reason: &str) -> Outcome {
    Outcome::Failed {
        reason: reason.to_string(),
    }
}

#[test]
fn an_installation_unloads_waits_writes_and_loads_in_that_order() {
    let install = started();
    assert_eq!(install.task(), Task::Unload);
    assert_eq!(install.installed(), None);

    let install = went_on(install);
    assert_eq!(install.task(), Task::AwaitUnloaded);

    let install = went_on(install);
    assert_eq!(
        install.task(),
        Task::CreateDirectory {
            path: "/Users/tester/Library/LaunchAgents".to_string()
        }
    );

    let install = went_on(install);
    assert_eq!(
        install.task(),
        Task::CreateDirectory {
            path: "/Users/tester/Library/Logs/moji".to_string()
        }
    );

    let install = went_on(install);
    assert_eq!(
        install.task(),
        Task::Write {
            path: "/Users/tester/Library/LaunchAgents/dev.pkarpovich.moji.plist".to_string(),
            contents: bundled(),
        }
    );

    let install = went_on(install);
    assert_eq!(
        install.task(),
        Task::Load {
            agent: "/Users/tester/Library/LaunchAgents/dev.pkarpovich.moji.plist".to_string()
        }
    );

    let install = went_on(install);
    assert_eq!(install.task(), Task::Nothing);
    assert_eq!(
        install.installed(),
        Some(Installed {
            program: "/Applications/Moji.app/Contents/MacOS/moji".to_string(),
            agent: "/Users/tester/Library/LaunchAgents/dev.pkarpovich.moji.plist".to_string(),
            housing: Housing::Bundle,
        })
    );
}

#[test]
fn an_installation_without_a_home_or_a_binary_never_starts() {
    assert_eq!(
        Install::start(None, Ok("/bin/moji".to_string())),
        Err(ServiceError::NoHome)
    );
    assert_eq!(
        Install::start(Some("/Users/tester".to_string()), Err("gone".to_string())),
        Err(ServiceError::Executable {
            reason: "gone".to_string()
        })
    );
    assert_eq!(Uninstall::start(None), Err(ServiceError::NoHome));
}

#[test]
fn a_job_nothing_was_loaded_for_is_no_reason_to_stop() {
    assert!(started().on_outcome(Outcome::Refused).is_ok());
    assert!(started_uninstall().on_outcome(Outcome::Refused).is_ok());
}

#[test]
fn a_job_that_stays_loaded_stops_the_installation_and_the_uninstallation() {
    let bootout = ServiceError::Bootout {
        label: "dev.pkarpovich.moji".to_string(),
    };

    let install = went_on(started());
    assert_eq!(install.on_outcome(Outcome::Refused).err(), Some(bootout));

    let bootout = ServiceError::Bootout {
        label: "dev.pkarpovich.moji".to_string(),
    };
    let uninstall = done(started_uninstall());
    assert_eq!(uninstall.on_outcome(Outcome::Refused).err(), Some(bootout));
}

#[test]
fn every_task_that_cannot_be_carried_out_fails_with_its_own_error() {
    let unrun = ServiceError::Launchctl {
        reason: "not found".to_string(),
    };
    assert_eq!(started().on_outcome(failed("not found")).err(), Some(unrun));

    let agents = went_on(went_on(started()));
    assert_eq!(
        agents.on_outcome(failed("read-only")).err(),
        Some(ServiceError::Directory {
            path: "/Users/tester/Library/LaunchAgents".to_string(),
            reason: "read-only".to_string(),
        })
    );

    let logs = went_on(went_on(went_on(started())));
    assert_eq!(
        logs.on_outcome(failed("read-only")).err(),
        Some(ServiceError::Directory {
            path: "/Users/tester/Library/Logs/moji".to_string(),
            reason: "read-only".to_string(),
        })
    );

    let writing = went_on(went_on(went_on(went_on(started()))));
    assert_eq!(
        writing.on_outcome(failed("disk full")).err(),
        Some(ServiceError::Write {
            path: "/Users/tester/Library/LaunchAgents/dev.pkarpovich.moji.plist".to_string(),
            reason: "disk full".to_string(),
        })
    );

    let loading = went_on(went_on(went_on(went_on(went_on(started())))));
    assert_eq!(
        loading.on_outcome(Outcome::Refused).err(),
        Some(ServiceError::Bootstrap {
            path: "/Users/tester/Library/LaunchAgents/dev.pkarpovich.moji.plist".to_string(),
        })
    );

    let removing = done(done(started_uninstall()));
    assert_eq!(
        removing.on_outcome(failed("busy")).err(),
        Some(ServiceError::Remove {
            path: "/Users/tester/Library/LaunchAgents/dev.pkarpovich.moji.plist".to_string(),
            reason: "busy".to_string(),
        })
    );
}

#[test]
fn a_refused_directory_or_file_is_never_taken_for_done() {
    let refused = REFUSED.to_string();
    let agents = went_on(went_on(started()));
    assert_eq!(
        agents.on_outcome(Outcome::Refused).err(),
        Some(ServiceError::Directory {
            path: "/Users/tester/Library/LaunchAgents".to_string(),
            reason: refused.clone(),
        })
    );

    let logs = went_on(went_on(went_on(started())));
    assert_eq!(
        logs.on_outcome(Outcome::Refused).err(),
        Some(ServiceError::Directory {
            path: "/Users/tester/Library/Logs/moji".to_string(),
            reason: refused.clone(),
        })
    );

    let writing = went_on(went_on(went_on(went_on(started()))));
    assert_eq!(
        writing.on_outcome(Outcome::Refused).err(),
        Some(ServiceError::Write {
            path: "/Users/tester/Library/LaunchAgents/dev.pkarpovich.moji.plist".to_string(),
            reason: refused.clone(),
        })
    );

    let removing = done(done(started_uninstall()));
    assert_eq!(
        removing.on_outcome(Outcome::Refused).err(),
        Some(ServiceError::Remove {
            path: "/Users/tester/Library/LaunchAgents/dev.pkarpovich.moji.plist".to_string(),
            reason: refused,
        })
    );
}

#[test]
fn an_uninstallation_unloads_waits_and_removes() {
    let uninstall = started_uninstall();
    assert_eq!(uninstall.task(), Task::Unload);
    let uninstall = done(uninstall);
    assert_eq!(uninstall.task(), Task::AwaitUnloaded);
    let uninstall = done(done(uninstall));
    assert_eq!(uninstall.task(), Task::Nothing);
    assert_eq!(uninstall.layout(), layout("/Users/tester"));
}

#[test]
fn every_error_is_said_in_full() {
    let path = || "/agent".to_string();
    let reason = || "why".to_string();

    assert_eq!(
        ServiceError::NoHome.to_string(),
        "HOME is not set, so the service paths cannot be resolved"
    );
    assert_eq!(
        ServiceError::Executable { reason: reason() }.to_string(),
        "the running binary could not be located: why"
    );
    assert_eq!(
        ServiceError::Directory {
            path: path(),
            reason: reason()
        }
        .to_string(),
        "/agent could not be created: why"
    );
    assert_eq!(
        ServiceError::Write {
            path: path(),
            reason: reason()
        }
        .to_string(),
        "/agent could not be written: why"
    );
    assert_eq!(
        ServiceError::Remove {
            path: path(),
            reason: reason()
        }
        .to_string(),
        "/agent could not be removed: why"
    );
    assert_eq!(
        ServiceError::Launchctl { reason: reason() }.to_string(),
        "launchctl could not be run: why"
    );
    assert_eq!(
        ServiceError::Bootstrap { path: path() }.to_string(),
        "launchctl refused to load /agent"
    );
    assert_eq!(
        ServiceError::Bootout {
            label: "moji".to_string()
        }
        .to_string(),
        "moji is still loaded, so launchctl refused to unload it"
    );
}

#[test]
fn the_agent_is_written_out_in_full() {
    assert_eq!(
        agent_plist("/bin/moji", "/log", "/err"),
        r#"<?xml version="1.0" encoding="UTF-8"?>
<!DOCTYPE plist PUBLIC "-//Apple//DTD PLIST 1.0//EN" "http://www.apple.com/DTDs/PropertyList-1.0.dtd">
<plist version="1.0">
<dict>
	<key>Label</key>
	<string>dev.pkarpovich.moji</string>
	<key>ProgramArguments</key>
	<array>
		<string>/bin/moji</string>
		<string>run</string>
	</array>
	<key>RunAtLoad</key>
	<true/>
	<key>KeepAlive</key>
	<dict>
		<key>PathState</key>
		<dict>
			<key>/bin/moji</key>
			<true/>
		</dict>
	</dict>
	<key>StandardOutPath</key>
	<string>/log</string>
	<key>StandardErrorPath</key>
	<string>/err</string>
</dict>
</plist>
"#
    );
}

#[test]
fn the_wait_for_a_job_to_go_away_ends_after_five_seconds() {
    let wait = UnloadWait::start(SECOND);

    assert_eq!(wait.on_clock(SECOND), WaitStep::Ask);
    assert_eq!(wait.on_clock(6 * SECOND - 1), WaitStep::Ask);
    assert_eq!(wait.on_clock(6 * SECOND), WaitStep::Over(Outcome::Refused));
    assert_eq!(UNLOAD_TIMEOUT, 5 * SECOND);
    assert_eq!(UNLOAD_POLL, 100 * MILLISECOND);
}

#[test]
fn a_job_launchd_cannot_print_is_gone_and_one_it_prints_is_not() {
    let wait = UnloadWait::start(0);

    assert_eq!(wait.on_print(Outcome::Refused), WaitStep::Over(Outcome::Done));
    assert_eq!(wait.on_print(Outcome::Done), WaitStep::Pause);
    assert_eq!(
        wait.on_print(failed("no launchctl")),
        WaitStep::Over(failed("no launchctl"))
    );
}

fn waited(start: Instant, readings: Vec<(Instant, Outcome)>) -> Option<Outcome> {
    let wait = UnloadWait::start(start);
    for (now, answer) in readings {
        match wait.on_clock(now) {
            WaitStep::Over(outcome) => return Some(outcome),
            step => assert_eq!(step, WaitStep::Ask),
        }
        match wait.on_print(answer) {
            WaitStep::Over(outcome) => return Some(outcome),
            step => assert_eq!(step, WaitStep::Pause),
        }
    }
    None
}

#[test]
fn a_wait_ends_at_the_first_reading_that_decides_it() {
    let printed = |now: Instant| (now, Outcome::Done);

    assert_eq!(waited(0, vec![printed(0), printed(UNLOAD_POLL)]), None);
    assert_eq!(
        waited(0, vec![printed(0), (UNLOAD_POLL, Outcome::Refused)]),
        Some(Outcome::Done)
    );
    assert_eq!(
        waited(0, vec![printed(0), (UNLOAD_TIMEOUT, Outcome::Refused)]),
        Some(Outcome::Refused)
    );
    assert_eq!(
        waited(0, vec![(0, failed("no launchctl")), (UNLOAD_POLL, Outcome::Refused)]),
        Some(failed("no launchctl"))
    );
}

#[test]
fn a_wait_is_over_by_the_fiftieth_pause() {
    let mut readings = Vec::new();
    for pauses in 0..50 {
        readings.push((SECOND + pauses * UNLOAD_POLL, Outcome::Done));
    }
    assert_eq!(waited(SECOND, readings), None);

    let mut readings = Vec::new();
    for pauses in 0..51 {
        readings.push((SECOND + pauses * UNLOAD_POLL, Outcome::Done));
    }
    assert_eq!(waited(SECOND, readings), Some(Outcome::Refused));
}

#[test]
fn a_value_reads_back_as_it_was_written() {
    assert_eq!(escape("&amp;"), "&amp;amp;");
    assert_eq!(escape("<&>"), "&lt;&amp;&gt;");
    assert_eq!(escape(""), "");
}

#[test]
fn a_copy_of_what_was_installed_is_the_same() {
    let installed = Installed {
        program: "/bin/moji".to_string(),
        agent: "/agent".to_string(),
        housing: Housing::Loose,
    };

    assert_eq!(installed.clone(), installed);
    assert_eq!(layout("/Users/tester").clone(), layout("/Users/tester"));
}

#[test]
fn launchd_knows_the_agent_by_its_user_and_label() {
    assert_eq!(domain(501), "gui/501");
    assert_eq!(job(501), "gui/501/dev.pkarpovich.moji");
    assert_eq!(job(0), "gui/0/dev.pkarpovich.moji");
    assert_eq!(LABEL, "dev.pkarpovich.moji");
}

#[test]
fn a_bundle_is_recognized_wherever_it_stands_in_the_path() {
    assert_eq!(housing("Moji.app"), Housing::Bundle);
    assert_eq!(housing("/a/.app/b"), Housing::Bundle);
    assert_eq!(housing("/a/Moji.app//b"), Housing::Bundle);
    assert_eq!(housing("/a/Moji.apps/b"), Housing::Loose);
    assert_eq!(housing("app"), Housing::Loose);
    assert_eq!(housing(""), Housing::Loose);
}
