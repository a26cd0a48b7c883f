use visage::preview::Preview;
use visage::screen::{compose, draw, halfblocks, heading, Area, Body, Cell, Colour, Panes};
use visage::session::{closes, report_lines, App, Key, Outcome, Phase, Session, SessionStep};
use visage::user::{
    current_user, refusal_message, resolve, session_bus, FrontEnd, Invocation, Refusal,
};
use visage::window::{advice, to_rgb, window_view, Picture};

#[test]
fn no_frame_and_an_empty_frame_both_read_as_waiting() {
    assert_eq!(advice(None), "waiting for the camera…");
    assert_eq!(
        advice(Some(&(160, 90, vec![], false))),
        "waiting for the camera…"
    );
}

#[test]
fn both_front_ends_wait_for_frames_without_extent() {
    assert_eq!(
        advice(Some(&(0, 4, vec![120; 4], false))),
        "waiting for the camera…"
    );
    let app = App {
        phase: Phase::Connecting,
        frame: Some(Preview {
            width: 0,
            height: 4,
            data: vec![120; 4],
            is_dark: false,
        }),
        outcomes: Vec::new(),
        finished: None,
    };
    let area = Area {
        x: 0,
        y: 0,
        width: 80,
        height: 24,
    };
    assert_eq!(draw(&app, area).title, " waiting for the camera… ");
    assert_eq!(window_view(&app).advice, "waiting for the camera…");
}

#[test]
fn main_the_daemons_dark_verdict_is_honoured() {
    assert!(advice(Some(&(4, 4, vec![10; 16], true))).contains("too dark"));
}

/// The saturation case the daemon cannot report, so both front-ends say the same
/// thing about the same frame.
#[test]
fn main_saturation_is_detected_client_side() {
    assert!(advice(Some(&(4, 4, vec![250; 16], false))).contains("washed out"));
}

#[test]
fn main_an_ordinary_frame_is_ok() {
    assert!(advice(Some(&(4, 4, vec![120; 16], false))).contains("looking good"));
}

/// The reason an enrollment failed must outlive the screen it was drawn on.
#[test]
fn the_failure_reason_reaches_stdout_after_the_alternate_screen_is_gone() {
    let app = App {
        phase: Phase::Done,
        frame: None,
        outcomes: vec![
            Outcome {
                label: "normal".to_string(),
                ok: false,
                detail: "no usable frames captured".to_string(),
            },
            Outcome {
                label: "left".to_string(),
                ok: true,
                detail: "a-model-uuid".to_string(),
            },
        ],
        finished: Some("enrolled 1 of 2 angles for this user.".to_string()),
    };

    let lines = report_lines(&app);

    assert!(
        lines
            .iter()
            .any(|l| l.contains("normal") && l.contains("no usable frames")),
        "the specific reason a capture failed must survive; got {lines:?}"
    );
    assert!(
        lines.iter().any(|l| l.starts_with("FAILED")),
        "a failure must be visibly marked, not just listed; got {lines:?}"
    );
    assert_eq!(
        lines.last().map(String::as_str),
        Some("enrolled 1 of 2 angles for this user."),
        "the closing summary must come last; got {lines:?}"
    );
    assert_eq!(lines[0], "FAILED  normal: no usable frames captured");
    assert_eq!(lines[1], "ok      left: a-model-uuid");
}

/// Negative control: with nothing recorded there is nothing to print, so a pass
/// above cannot come from a function that always emits something.
#[test]
fn an_empty_run_reports_nothing_rather_than_a_reassuring_blank() {
    let app = App {
        phase: Phase::Connecting,
        frame: None,
        outcomes: Vec::new(),
        finished: None,
    };
    assert!(report_lines(&app).is_empty());
}

#[test]
fn user_resolution_prefers_sudo_user_and_can_still_yield_root() {
    assert_eq!(
        current_user(Some("alice".to_string()), Some("root".to_string())),
        Some("alice".to_string()),
        "SUDO_USER must win, or enrolling under sudo targets the wrong account"
    );

    // With no SUDO_USER, $USER under sudo is root. This value is reachable, which
    // is exactly why it is refused rather than trusted.
    assert_eq!(
        current_user(None, Some("root".to_string())),
        Some("root".to_string())
    );
}

#[test]
fn empty_and_root_sudo_users_fall_back() {
    assert_eq!(
        current_user(Some(String::new()), Some("bob".to_string())),
        Some("bob".to_string())
    );
    assert_eq!(
        current_user(Some("root".to_string()), Some("bob".to_string())),
        Some("bob".to_string())
    );
    assert_eq!(current_user(None, Some(String::new())), None);
    assert_eq!(current_user(None, None), None);
}

fn invocation(named: Option<&str>, sudo: Option<&str>, user: Option<&str>) -> Invocation {
    Invocation {
        named: named.map(str::to_string),
        sudo_user: sudo.map(str::to_string),
        user: user.map(str::to_string),
        labels: 4,
        has_display: true,
    }
}

#[test]
fn root_is_refused_however_it_is_asked_for() {
    for front_end in [FrontEnd::Terminal, FrontEnd::Window] {
        assert_eq!(
            resolve(front_end, invocation(Some("root"), Some("alice"), None)),
            Err(Refusal::Root)
        );
        assert_eq!(
            resolve(front_end, invocation(None, None, Some("root"))),
            Err(Refusal::Root)
        );
        assert_eq!(
            resolve(front_end, invocation(None, None, None)),
            Err(Refusal::UnknownUser)
        );
        assert_eq!(
            resolve(front_end, invocation(None, Some("alice"), Some("root"))),
            Ok("alice".to_string())
        );
        assert_eq!(
            resolve(front_end, invocation(Some("carol"), Some("alice"), None)),
            Ok("carol".to_string())
        );
    }
}

#[test]
fn each_front_end_minds_its_own_needs() {
    let mut no_labels = invocation(Some("carol"), None, None);
    no_labels.labels = 0;
    assert_eq!(
        resolve(FrontEnd::Terminal, no_labels),
        Err(Refusal::NoLabels)
    );
    let mut no_labels = invocation(Some("carol"), None, None);
    no_labels.labels = 0;
    assert_eq!(
        resolve(FrontEnd::Window, no_labels),
        Ok("carol".to_string())
    );
    let mut blind = invocation(Some("carol"), None, None);
    blind.has_display = false;
    assert_eq!(resolve(FrontEnd::Window, blind), Err(Refusal::NoDisplay));
    let mut blind = invocation(Some("carol"), None, None);
    blind.has_display = false;
    assert_eq!(
        resolve(FrontEnd::Terminal, blind),
        Ok("carol".to_string())
    );
}

#[test]
fn refusals_say_what_to_do() {
    assert_eq!(
        refusal_message(FrontEnd::Terminal, Refusal::Root),
        "refusing to enrol root. Run this with sudo as your own user, or pass --user."
    );
    assert_eq!(
        refusal_message(FrontEnd::Window, Refusal::Root),
        "refusing to enrol root. Run as your own user via sudo, or pass --user."
    );
    assert_eq!(
        refusal_message(FrontEnd::Window, Refusal::UnknownUser),
        "cannot determine which user to enrol; pass --user"
    );
    assert_eq!(
        refusal_message(FrontEnd::Terminal, Refusal::NoLabels),
        "no labels given — nothing to enrol"
    );
    assert!(refusal_message(FrontEnd::Window, Refusal::NoDisplay)
        .starts_with("no WAYLAND_DISPLAY or DISPLAY.\n\nThis is"));
}

#[test]
fn only_a_real_value_asks_for_the_session_bus() {
    assert!(!session_bus(None));
    assert!(!session_bus(Some(String::new())));
    assert!(!session_bus(Some("0".to_string())));
    assert!(session_bus(Some("1".to_string())));
    assert!(session_bus(Some("00".to_string())));
}

fn session(front_end: FrontEnd, labels: &[&str]) -> Session {
    Session::start(
        front_end,
        "alice".to_string(),
        labels.iter().map(|l| l.to_string()).collect(),
    )
}

fn subscribed(front_end: FrontEnd, labels: &[&str]) -> Session {
    let mut s = session(front_end, labels);
    assert_eq!(s.step(), SessionStep::Connect);
    s.connected(Ok(()));
    assert_eq!(s.step(), SessionStep::OpenInterface);
    s.interface_opened(Ok(()));
    assert_eq!(s.step(), SessionStep::Subscribe);
    assert!(s.request().is_none());
    s.subscribed(Ok(()));
    s
}

#[test]
fn a_session_enrolls_every_label_in_order() {
    let mut s = subscribed(FrontEnd::Terminal, &["normal", "left"]);
    assert_eq!(s.step(), SessionStep::Enroll(0));
    assert_eq!(heading(s.app()), "[1/2]  look normal");
    let (user, label) = s.request().unwrap();
    assert_eq!((user.as_str(), label.as_str()), ("alice", "normal"));
    s.enrolled(Err("no face detected in any captured frame".to_string()));
    assert_eq!(s.step(), SessionStep::Enroll(1));
    assert_eq!(heading(s.app()), "[2/2]  look left");
    assert!(s.app().finished.is_none());
    s.enrolled(Ok("a-model-uuid".to_string()));
    assert_eq!(s.step(), SessionStep::Finished);
    assert!(s.request().is_none());
    assert_eq!(
        report_lines(s.app()),
        vec![
            "FAILED  normal: no face detected in any captured frame",
            "ok      left: a-model-uuid",
            "enrolled 1 of 2 angles for this user.",
        ]
    );
    assert_eq!(heading(s.app()), "enrolled 1 of 2 angles for this user.");
}

#[test]
fn a_failed_session_never_looks_successful() {
    let mut s = subscribed(FrontEnd::Window, &["normal"]);
    s.enrolled(Err("denied".to_string()));
    assert_eq!(s.app().finished.as_deref(), Some("nothing was enrolled."));
    let mut s = subscribed(FrontEnd::Window, &["a", "b"]);
    s.enrolled(Ok("1".to_string()));
    s.enrolled(Ok("2".to_string()));
    assert_eq!(
        s.app().finished.as_deref(),
        Some("enrolled 2 of 2 angles.")
    );
    let s = subscribed(FrontEnd::Window, &[]);
    assert_eq!(s.step(), SessionStep::Finished);
    assert_eq!(s.app().finished.as_deref(), Some("nothing was enrolled."));
}

#[test]
fn an_unusable_daemon_ends_the_session_with_its_reason() {
    let mut s = session(FrontEnd::Terminal, &["normal"]);
    s.connected(Err("no bus".to_string()));
    assert_eq!(
        report_lines(s.app()),
        vec!["could not reach visaged: no bus"]
    );
    assert_eq!(s.step(), SessionStep::Finished);

    let mut s = session(FrontEnd::Terminal, &["normal"]);
    s.connected(Ok(()));
    s.interface_opened(Err("no name".to_string()));
    assert_eq!(
        report_lines(s.app()),
        vec!["could not open the Visage interface: no name"]
    );

    let mut s = session(FrontEnd::Terminal, &["normal"]);
    s.connected(Ok(()));
    s.interface_opened(Ok(()));
    s.subscribed(Err("no match rule".to_string()));
    assert_eq!(
        report_lines(s.app()),
        vec!["could not subscribe to preview frames: no match rule"]
    );
}

#[test]
fn keys_close_the_screen() {
    assert!(closes(Key::Escape, false));
    assert!(closes(Key::Char('q'), false));
    assert!(!closes(Key::Char('x'), false));
    assert!(!closes(Key::Other, false));
    assert!(closes(Key::Char('x'), true));
    assert!(closes(Key::Other, true));
}

#[test]
fn headings_follow_the_phase() {
    let mut app = App {
        phase: Phase::Connecting,
        frame: None,
        outcomes: Vec::new(),
        finished: None,
    };
    assert_eq!(heading(&app), "connecting to visaged…");
    app.phase = Phase::Capturing {
        label: "glasses".to_string(),
        n: 10,
        total: 12,
    };
    assert_eq!(heading(&app), "[10/12]  look glasses");
    app.phase = Phase::Done;
    assert_eq!(heading(&app), "done");
}

fn picture() -> Preview {
    Preview {
        width: 2,
        height: 4,
        data: vec![10, 20, 30, 40, 50, 60, 70, 80],
        is_dark: false,
    }
}

#[test]
fn half_blocks_pair_the_pixels() {
    assert_eq!(
        halfblocks(&picture(), 2, 2),
        vec![
            vec![
                Cell {
                    top: 10,
                    bottom: 30
                },
                Cell {
                    top: 20,
                    bottom: 40
                }
            ],
            vec![
                Cell {
                    top: 50,
                    bottom: 70
                },
                Cell {
                    top: 60,
                    bottom: 80
                }
            ],
        ]
    );
    assert_eq!(halfblocks(&picture(), 0, 5), vec![Vec::<Cell>::new()]);
}

#[test]
fn a_roomy_screen_is_tiled() {
    let app = App {
        phase: Phase::Connecting,
        frame: None,
        outcomes: Vec::new(),
        finished: None,
    };
    for height in [12u16, 13, 24, 50, 200, 999, 60_000] {
        for (x, y) in [(0u16, 0u16), (3, 5)] {
            let screen = draw(
                &app,
                Area {
                    x,
                    y,
                    width: 80,
                    height,
                },
            );
            let row = |y: u16, height: u16| Area {
                x,
                y,
                width: 80,
                height,
            };
            assert_eq!(screen.panes.heading, row(y, 3), "{height}");
            assert_eq!(screen.panes.picture, row(y + 3, height - 6), "{height}");
            assert_eq!(screen.panes.captures, row(y + height - 3, 3), "{height}");
        }
    }
}

#[test]
fn a_cramped_screen_stays_inside_its_area() {
    let mut app = App {
        phase: Phase::Connecting,
        frame: Some(picture()),
        outcomes: Vec::new(),
        finished: None,
    };
    for n in 0..9usize {
        app.outcomes.push(Outcome {
            label: "l".to_string(),
            ok: true,
            detail: "d".to_string(),
        });
        let wanted = 3 + 6 + (n + 1).min(6) as u16 + 2;
        for height in 0..30u16 {
            let area = Area {
                x: 1,
                y: 2,
                width: 7,
                height,
            };
            let panes = draw(&app, area).panes;
            for pane in [panes.heading, panes.picture, panes.captures] {
                assert_eq!((pane.x, pane.width), (1, 7));
                assert!(pane.y >= 2 && pane.y + pane.height <= 2 + height);
            }
            assert_eq!(panes.heading.y, 2);
            assert_eq!(panes.picture.y, panes.heading.y + panes.heading.height);
            assert_eq!(panes.captures.y, panes.picture.y + panes.picture.height);
            assert!(panes.heading.height <= 3);
            assert!(panes.captures.height <= (n + 1).min(6) as u16 + 2);
            assert!(panes.picture.height >= height.min(6), "{height}");
            if height >= wanted {
                assert_eq!(panes.heading.height, 3);
                assert_eq!(panes.captures.height, (n + 1).min(6) as u16 + 2);
            }
        }
    }
}

#[test]
fn the_screen_shows_the_picture_inside_its_border() {
    let app = App {
        phase: Phase::Done,
        frame: Some(picture()),
        outcomes: vec![
            Outcome {
                label: "left".to_string(),
                ok: true,
                detail: "id".to_string(),
            },
            Outcome {
                label: "right".to_string(),
                ok: false,
                detail: "why".to_string(),
            },
        ],
        finished: None,
    };
    let area = Area {
        x: 0,
        y: 0,
        width: 4,
        height: 4,
    };
    let screen = compose(
        &app,
        Panes {
            heading: area,
            picture: area,
            captures: area,
        },
    );
    assert_eq!(screen.title, " looking good — hold still ");
    match screen.body {
        Body::Picture(rows) => assert_eq!(rows, halfblocks(&picture(), 2, 2)),
        Body::Text(text) => panic!("no picture: {text}"),
    }
    assert_eq!(screen.captures.len(), 2);
    assert_eq!(screen.captures[0].mark, "ok  ");
    assert_eq!(screen.captures[0].colour, Colour::Green);
    assert_eq!(screen.captures[0].text, "  left  id");
    assert_eq!(screen.captures[1].mark, "fail");
    assert_eq!(screen.captures[1].colour, Colour::Red);
    assert_eq!(screen.captures[1].text, "  right  why");
}

#[test]
fn a_pane_without_room_shows_a_blank_picture() {
    let app = App {
        phase: Phase::Done,
        frame: Some(picture()),
        outcomes: Vec::new(),
        finished: None,
    };
    let area = Area {
        x: 5,
        y: 5,
        width: 1,
        height: 9,
    };
    let screen = compose(
        &app,
        Panes {
            heading: area,
            picture: area,
            captures: area,
        },
    );
    match screen.body {
        Body::Picture(rows) => assert_eq!(rows, vec![Vec::<Cell>::new()]),
        Body::Text(text) => panic!("no picture: {text}"),
    }
    assert_eq!(screen.captures[0].text, "no captures yet");
    assert_eq!(screen.captures[0].colour, Colour::Plain);
}

#[test]
fn a_screen_without_a_frame_waits() {
    let app = App {
        phase: Phase::Connecting,
        frame: None,
        outcomes: Vec::new(),
        finished: None,
    };
    let screen = draw(
        &app,
        Area {
            x: 0,
            y: 0,
            width: 80,
            height: 24,
        },
    );
    assert_eq!(screen.title, " waiting for the camera… ");
    assert!(matches!(
        screen.body,
        Body::Text("waiting for the camera…")
    ));
}

#[test]
fn gray_becomes_colour() {
    assert_eq!(to_rgb(&[7, 9]), vec![7, 7, 7, 9, 9, 9]);
}

#[test]
fn the_window_shows_the_frame_as_an_image() {
    let mut s = session(FrontEnd::Window, &["normal"]);
    let shown = window_view(s.app());
    assert!(matches!(shown.picture, Picture::NoFrames("no frames yet")));
    assert_eq!(shown.heading, "connecting to visaged…");
    s.frame_arrived(picture());
    let shown = window_view(s.app());
    assert_eq!(shown.advice, "looking good — hold still");
    match shown.picture {
        Picture::Image(image) => {
            assert_eq!(image.size, [2, 4]);
            assert_eq!(image.pixels.len(), 8);
            assert_eq!(
                image.pixels[2],
                eframe::egui::Color32::from_rgb(30, 30, 30)
            );
        }
        _ => panic!("no image"),
    }
    s.frame_arrived(Preview {
        width: 0,
        height: 4,
        data: vec![1],
        is_dark: true,
    });
    let shown = window_view(s.app());
    assert!(matches!(shown.picture, Picture::Hidden));
    assert_eq!(shown.advice, "waiting for the camera…");
    let mut short = picture();
    short.data.pop();
    s.frame_arrived(short);
    let shown = window_view(s.app());
    assert!(matches!(shown.picture, Picture::Hidden));
    assert_eq!(shown.advice, "waiting for the camera…");
}

#[test]
fn the_window_lists_its_shots() {
    let mut s = subscribed(FrontEnd::Window, &["normal", "left"]);
    s.enrolled(Ok("id".to_string()));
    let shown = window_view(s.app());
    assert_eq!(shown.heading, "[2/2]  look left");
    assert_eq!(shown.shots.len(), 1);
    assert_eq!(shown.shots[0].text, "normal  id");
    assert_eq!(shown.shots[0].colour, Colour::Green);
    s.enrolled(Err("why".to_string()));
    let shown = window_view(s.app());
    assert_eq!(shown.heading, "enrolled 1 of 2 angles.");
    assert_eq!(shown.shots[1].text, "left  why");
    assert_eq!(shown.shots[1].colour, Colour::Red);
}
