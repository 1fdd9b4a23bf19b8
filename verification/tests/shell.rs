use drv::chooser::Press;
use drv::shell::app::{place, sized, Place, Screens, Shell};
use drv::shell::ask::{Choice, Request, Response};
use drv::shell::menu::{choice, lines_for, Menu};
use drv::shell::notes::{one_line, Cards};
use drv::shell::notify::{greeted, FromShell, ToShell};
use drv::shell::prompts::{Front, Wire};

fn typed(s: &str) -> Press<String> {
    Press::Typed(s.to_owned())
}

fn names(list: &[&str]) -> Vec<String> {
    list.iter().map(|s| s.to_string()).collect()
}

#[test]
fn the_menu_filters_and_launches() {
    let mut menu = Menu::new();
    menu.show(names(&["Firefox", "foot", "Files"]));
    assert!(menu.up);
    menu.press(typed("FI"));
    assert_eq!(menu.matches(), vec!["Firefox", "Files"]);
    menu.press(Press::Down);
    menu.press(Press::Down);
    assert_eq!(menu.selected, 1);
    assert_eq!(
        menu.rows(1),
        vec![("Files".to_owned(), true)]
    );
    assert_eq!(format!("{:?}", menu.press(Press::Enter)), "Launch(\"Files\")");
    assert!(!menu.up);
    menu.show(names(&["a"]));
    menu.press(typed("zz"));
    menu.press(Press::BackSpace);
    assert_eq!(menu.filter, "z");
    assert_eq!(format!("{:?}", menu.press(Press::Enter)), "Hide");
    menu.show(names(&["a"]));
    assert_eq!(format!("{:?}", menu.press(Press::Up)), "Redraw");
    assert_eq!(format!("{:?}", menu.press(typed(&"x".repeat(65)))), "Nothing");
    assert_eq!(format!("{:?}", menu.press(Press::Escape)), "Hide");
    assert_eq!(lines_for(&names(&["a", "b"])), "a\nb");
    assert_eq!(choice(&b" firefox\n".to_vec()).as_deref(), Some("firefox"));
    assert_eq!(choice(&b"a\xffb".to_vec()).as_deref(), Some("a\u{fffd}b"));
    assert_eq!(choice(&b" \n".to_vec()), None);
}

fn confirm(id: u64) -> Request<String, Vec<Choice<String>>> {
    Request::Confirm {
        id,
        app: "web".to_owned(),
        uid: 70,
        what: "use your camera".to_owned(),
        note: "until".to_owned(),
    }
}

fn pick(id: u64, keys: &[&str]) -> Request<String, Vec<Choice<String>>> {
    Request::Pick {
        id,
        app: "web".to_owned(),
        uid: 70,
        what: "see your screen".to_owned(),
        note: "n".to_owned(),
        choices: keys
            .iter()
            .map(|k| Choice {
                key: format!("k:{k}"),
                name: k.to_string(),
                detail: format!("the {k} one"),
            })
            .collect(),
    }
}

#[test]
fn a_confirmation_is_yes_or_no() {
    let mut p = Front::new();
    assert_eq!(
        format!("{:?}", p.asked(Wire::Cast, Request::Hello { version: 1 })),
        "[Reply { wire: Cast, resp: Hello { version: 1 } }]"
    );
    assert_eq!(format!("{:?}", p.asked(Wire::Cast, confirm(3))), "[Show { small: true }]");
    assert!(p.asked(Wire::Agent, confirm(3)).is_empty());
    assert!(p.press(typed("y")).is_empty());
    assert!(p.press(Press::Down).is_empty());
    assert_eq!(
        format!("{:?}", p.press(Press::Enter)),
        "[Reply { wire: Cast, resp: Yes { id: 3 } }, Hide, Show { small: true }]"
    );
    let page = p.dialog.as_ref().unwrap().page(3);
    assert_eq!(page.head, "web wants to use your camera");
    assert_eq!(page.hint, "Enter allow   Esc refuse");
    assert_eq!(
        format!("{:?}", p.press(Press::Escape)),
        "[Reply { wire: Agent, resp: Cancelled { id: 3 } }, Hide]"
    );
    assert_eq!(Wire::Cast.name(), "drv-cast");
    assert_eq!(Wire::Agent.name(), "drv-agent");
}

#[test]
fn a_secret_is_typed_and_not_shown() {
    let mut p = Front::new();
    p.asked(
        Wire::Agent,
        Request::Secret {
            id: 1,
            app: "git".to_owned(),
            uid: 70,
            what: "sign".to_owned(),
            prompt: "PIN for the key".to_owned(),
        },
    );
    assert!(p.press(Press::Enter).is_empty());
    p.press(typed("12\u{e9}"));
    let page = p.dialog.as_ref().unwrap().page(1);
    assert_eq!(page.line, "PIN: \u{25cf}\u{25cf}\u{25cf}_");
    assert_eq!(page.note, "PIN for the key");
    p.press(Press::BackSpace);
    assert_eq!(
        format!("{:?}", p.press(Press::Enter)),
        "[Reply { wire: Agent, resp: Secret { id: 1, secret: \"12\" } }, Hide]"
    );
}

#[test]
fn a_touch_is_only_refused() {
    let mut p = Front::new();
    p.asked(
        Wire::Agent,
        Request::Touch {
            id: 1,
            app: "git".to_owned(),
            uid: 70,
            what: "sign".to_owned(),
            prompt: "touch".to_owned(),
        },
    );
    assert!(p.press(Press::Enter).is_empty());
    assert!(p.press(typed("x")).is_empty());
    assert_eq!(p.dialog.as_ref().unwrap().page(1).line, "touch it now");
    assert_eq!(
        format!("{:?}", p.press(Press::Escape)),
        "[Reply { wire: Agent, resp: Cancelled { id: 1 } }, Hide]"
    );
}

#[test]
fn a_list_is_filtered_changed_and_picked() {
    let mut p = Front::new();
    assert_eq!(
        format!("{:?}", p.asked(Wire::Cast, pick(1, &["left", "right"]))),
        "[Show { small: false }]"
    );
    p.press(typed("THE RIGHT"));
    assert_eq!(p.dialog.as_ref().unwrap().shown(), vec![1]);
    assert_eq!(
        format!("{:?}", p.asked(Wire::Cast, pick(1, &["right", "up"]))),
        "[Redraw]"
    );
    assert_eq!(p.dialog.as_ref().unwrap().shown(), vec![0]);
    let page = p.dialog.as_ref().unwrap().page(2);
    assert_eq!(page.rows, vec![("right".to_owned(), "the right one".to_owned(), true)]);
    assert_eq!(
        format!("{:?}", p.press(Press::Enter)),
        "[Reply { wire: Cast, resp: Picked { id: 1, key: \"k:right\" } }, Hide]"
    );
    // An empty list picks nothing.
    p.asked(Wire::Cast, pick(2, &[]));
    assert_eq!(p.dialog.as_ref().unwrap().page(2).nothing, "nothing to pick");
    assert!(p.press(Press::Enter).is_empty());
    // What waits changes too.
    p.asked(Wire::Cast, pick(3, &["a"]));
    assert!(p.asked(Wire::Cast, pick(3, &["b"])).is_empty());
    assert_eq!(
        format!("{:?}", p.asked(Wire::Cast, Request::Cancel { id: 2 })),
        "[Hide, Show { small: false }]"
    );
    assert_eq!(
        format!("{:?}", p.press(Press::Enter)),
        "[Reply { wire: Cast, resp: Picked { id: 3, key: \"k:b\" } }, Hide]"
    );
}

#[test]
fn locking_takes_everything_down_and_unlocking_brings_it_back() {
    let mut shell = Shell::new();
    shell.prompts.asked(Wire::Agent, confirm(1));
    shell.menu.show(names(&["a"]));
    shell.notes.connected(1, "web".to_owned(), 70);
    let note = ToShell::Notify {
        req: 1,
        replaces: 0,
        summary: "hi".to_owned(),
        body: String::new(),
    };
    shell.notes.said(1, note, 0, false);
    shell.screens.held = true;
    assert!(!shell.new_output(3));
    assert!(!shell.wants_menu());
    let (cover, acts, notes) = shell.locked(&vec![3, 3, 4]);
    assert_eq!(cover, vec![3, 4]);
    assert!(shell.new_output(5));
    shell.output_gone(4);
    assert_eq!(shell.screens.surfaces, vec![3, 5]);
    assert_eq!(format!("{acts:?}"), "[Hide]");
    assert_eq!(format!("{notes:?}"), "[Hide]");
    assert!(!shell.menu.up && !shell.wants_menu());
    assert!(shell.prompts.asked(Wire::Agent, confirm(2)).is_empty());
    let (acts, notes) = shell.finished();
    assert_eq!(format!("{acts:?}"), "[Show { small: true }]");
    assert_eq!(format!("{notes:?}"), "[Show { height: 84 }]");
    assert_eq!(shell.prompts.dialog.as_ref().unwrap().req.id, 1);
    assert!(shell.wants_menu());
    assert!(matches!(
        &shell.prompts.refuse()[0],
        drv::shell::prompts::Act::Reply { wire: Wire::Agent, resp: Response::Cancelled { id: 1 } }
    ));
}

#[test]
fn keys_go_where_the_keyboard_is() {
    assert_eq!(place(true, true, true), Place::Lock);
    assert_eq!(place(false, true, true), Place::Dialog);
    assert_eq!(place(false, false, true), Place::Menu);
    assert_eq!(place(false, false, false), Place::Nowhere);
    assert_eq!(sized(0, 7, 400, 84), (400, 7));
    let mut screens = Screens::new();
    assert!(!screens.cover(1));
    screens.held = true;
    assert!(screens.cover(1));
    assert!(screens.new_output(2));
    screens.output_gone(1);
    assert_eq!(screens.surfaces, vec![2]);
    assert!(screens.locked());
}

fn notify(req: u64, replaces: u32, summary: &str) -> ToShell {
    ToShell::Notify { req, replaces, summary: summary.to_owned(), body: "b\nc".to_owned() }
}

#[test]
fn notes_are_shown_replaced_and_dropped() {
    let mut notes = Cards::new();
    assert!(notes.said(1, notify(1, 0, "x"), 0, false).is_empty());
    notes.connected(1, "web".to_owned(), 70);
    notes.connected(2, "pad".to_owned(), 80);
    assert_eq!(
        format!("{:?}", notes.said(1, notify(5, 0, "one"), 0, false)),
        "[Notified { conn: 1, req: 5, id: 1 }, Show { height: 84 }]"
    );
    notes.size = (400, 84);
    assert_eq!(
        format!("{:?}", notes.said(2, notify(6, 1, "two"), 0, false)),
        "[Notified { conn: 2, req: 6, id: 2 }, Resize { height: 174 }]"
    );
    assert_eq!(
        format!("{:?}", notes.said(1, notify(7, 1, &"z".repeat(3000)), 9, false)),
        "[Notified { conn: 1, req: 7, id: 1 }, Resize { height: 174 }]"
    );
    assert_eq!(notes.list[0].summary.len(), 2048);
    let cards = notes.cards();
    assert_eq!(cards[0], ("pad".to_owned(), "two".to_owned(), "b".to_owned()));
    // Another app's note is not theirs to close.
    notes.said(1, ToShell::Close { id: 2 }, 9, false);
    assert_eq!(notes.list.len(), 2);
    notes.size = (400, 84);
    assert_eq!(
        format!("{:?}", notes.tick(8_000_000_000, false)),
        "[Redraw]"
    );
    assert_eq!(notes.list.len(), 1);
    assert!(notes.tick(8_000_000_000, false).is_empty());
    assert_eq!(
        format!("{:?}", notes.said(1, ToShell::Close { id: 1 }, 9, false)),
        "[Hide]"
    );
    assert_eq!(one_line("a\r\nb"), "a");
    assert_eq!(one_line(""), "");
    notes.next_id = u32::MAX;
    notes.said(1, notify(1, 0, "x"), 0, true);
    assert_eq!(notes.next_id, 1);
    notes.gone(1);
    assert_eq!(notes.list.len(), 1);
    assert!(greeted(&ToShell::Hello { version: 1 }));
    assert!(!greeted(&ToShell::Close { id: 1 }));
    assert_eq!(FromShell::Notified { req: 4, id: 1 }.req(), Some(4));
}
