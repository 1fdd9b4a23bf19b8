use drv::chooser::page::scrolled;
use drv::chooser::{sized, FileKind, Front, Listed, Pending, Press, What};
use drv::files::app::{greeted, Files};
use drv::files::docs::{
    read_on, split, Errno, FileType, Got, Grant, Grants, Meta, Moment, Reading, ROOT,
};
use drv::files::wire::{FromFiles, Kind, ToFiles};
use drv::portal::app::Portal;
use drv::portal::compositor::{Output, ToPortal};
use drv::portal::protocol::Cursor;

fn grants() -> Grants {
    let mut g = Grants::new();
    assert_eq!(g.add(Grant { uid: 7, name: "a.txt".to_owned(), write: false }), 1);
    assert_eq!(g.add(Grant { uid: 8, name: "b.txt".to_owned(), write: true }), 2);
    assert_eq!(g.add(Grant { uid: 7, name: "c.txt".to_owned(), write: true }), 3);
    g
}

#[test]
fn a_document_is_its_owners() {
    let g = grants();
    let meta = Some(Meta { size: 513, mtime: Moment { secs: 4, nanos: 5 } });
    let dir = g.lookup(7, ROOT, Some("1"), None).unwrap();
    assert_eq!((dir.ino, dir.kind, dir.perm, dir.nlink), (2, FileType::Directory, 0o500, 2));
    let file = g.lookup(7, 2, Some("a.txt"), meta).unwrap();
    assert_eq!((file.ino, file.perm, file.size, file.blocks), (3, 0o400, 513, 2));
    assert_eq!((file.uid, file.gid, file.nlink, file.blksize), (7, 7, 1, 4096));
    assert_eq!(file.mtime, Moment { secs: 4, nanos: 5 });
    assert_eq!(g.lookup(8, ROOT, Some("1"), None), Err(Errno::NoEntry));
    assert_eq!(g.lookup(8, 2, Some("a.txt"), meta), Err(Errno::NoEntry));
    assert_eq!(g.lookup(7, 2, Some("b.txt"), meta), Err(Errno::NoEntry));
    assert_eq!(g.lookup(7, ROOT, Some("x"), None), Err(Errno::NoEntry));
    assert_eq!(g.lookup(7, ROOT, None, None), Err(Errno::NoEntry));
    assert_eq!(g.attr_of(500, 7, ROOT, None).unwrap().uid, 500);
    assert_eq!(g.attr_of(500, 7, 0, None), Err(Errno::NoEntry));
    assert_eq!(g.attr_of(500, 7, 5, None), Err(Errno::NoEntry));
}

#[test]
fn documents_are_written_only_where_allowed() {
    let g = grants();
    assert_eq!(g.open(7, 3, false), Ok(()));
    assert_eq!(g.open(7, 3, true), Err(Errno::Access));
    assert_eq!(g.open(7, 7, true), Ok(()));
    assert_eq!(g.open(8, 3, false), Err(Errno::NoEntry));
    assert_eq!(g.open(7, 2, false), Err(Errno::IsDir));
    assert_eq!(g.on_file(7, 3), Ok(1));
    assert_eq!(g.on_writable(7, 3), Err(Errno::Access));
    assert_eq!(g.setattr(7, 7, Some(0)), Ok(Some((3, 0))));
    assert_eq!(g.setattr(7, 3, Some(0)), Err(Errno::Access));
    assert_eq!(g.setattr(7, 3, None), Ok(None));
}

#[test]
fn listings_show_only_what_is_theirs() {
    let g = grants();
    let root: Vec<(u64, u64, String)> = g
        .readdir(7, ROOT, 0)
        .unwrap()
        .into_iter()
        .map(|(at, e)| (at, e.ino, e.name))
        .collect();
    assert_eq!(
        root,
        vec![
            (1, 1, ".".to_owned()),
            (2, 1, "..".to_owned()),
            (3, 2, "1".to_owned()),
            (4, 6, "3".to_owned())
        ]
    );
    assert_eq!(g.readdir(7, ROOT, 3).unwrap().len(), 1);
    assert_eq!(g.readdir(7, ROOT, 9).unwrap().len(), 0);
    assert_eq!(g.readdir(8, 2, 0).unwrap_err(), Errno::NoEntry);
    assert_eq!(g.readdir(7, 3, 0).unwrap_err(), Errno::NotDir);
    assert_eq!(g.readdir(7, 2, 2).unwrap()[0].1.name, "a.txt");
}

#[test]
fn reads_go_on_until_done() {
    assert_eq!(read_on(10, 0, Got::Bytes(4)), Reading::More(4));
    assert_eq!(read_on(10, 4, Got::Interrupted), Reading::More(4));
    assert_eq!(read_on(10, 4, Got::Bytes(6)), Reading::Done(10));
    assert_eq!(read_on(10, 4, Got::Bytes(0)), Reading::Done(4));
    assert_eq!(read_on(10, 4, Got::Failed), Reading::Failed);
    assert_eq!(split(0), None);
    assert_eq!(split(7), Some((3, true)));
    assert_eq!(split(6), Some((3, false)));
}

fn listed(name: &str, kind: FileKind) -> Listed<String> {
    Listed { name: name.to_owned(), kind }
}

fn home() -> Vec<Listed<String>> {
    vec![
        listed("zeta.txt", FileKind::Regular),
        listed(".hidden", FileKind::Regular),
        listed("Beta.txt", FileKind::Regular),
        listed("link", FileKind::Other),
        listed("music", FileKind::Directory),
        listed("alpha.txt", FileKind::Regular),
        listed("Docs", FileKind::Directory),
    ]
}

fn typed(s: &str) -> Press<String> {
    Press::Typed(s.to_owned())
}

#[test]
fn opening_a_file_goes_through_the_person() {
    let mut files = Files::new();
    files.connected(4, "web".to_owned(), 70);
    let acts = files.said(4, ToFiles::Choose { req: 9, kind: Kind::Open });
    assert_eq!(format!("{acts:?}"), "[Show, List { dir: \"\" }]");
    let mut out = Vec::new();
    files.desk.listed(Ok(home()), &mut out);
    let d = files.desk.dialog.as_ref().unwrap();
    let names: Vec<&str> = d.entries.iter().map(|e| e.name.as_str()).collect();
    assert_eq!(names, vec!["Docs", "music", "alpha.txt", "Beta.txt", "zeta.txt"]);
    let page = d.page(3);
    assert_eq!(page.head, "web wants to open a file");
    assert_eq!(page.line, "/");
    assert_eq!(page.rows.len(), 3);
    assert_eq!(page.rows[0].label, "Docs/");
    assert!(page.rows[0].selected);
    assert_eq!(page.typed, "filter: ");
    assert_eq!(page.hint, "Enter choose   Backspace up   Esc cancel");
    // Into a directory, and back up.
    out.clear();
    files.desk.press(Press::Enter, &mut out);
    assert_eq!(format!("{out:?}"), "[List { dir: \"Docs\" }]");
    out.clear();
    files.desk.listed(Ok(vec![listed("x", FileKind::Directory)]), &mut out);
    files.desk.press(Press::Enter, &mut out);
    files.desk.press(Press::Left, &mut out);
    assert_eq!(
        format!("{out:?}"),
        "[Redraw, List { dir: \"Docs/x\" }, List { dir: \"Docs\" }]"
    );
    out.clear();
    files.desk.press(Press::BackSpace, &mut out);
    files.desk.listed(Ok(home()), &mut out);
    // Filtered whatever the case.
    out.clear();
    files.desk.press(typed("BETA"), &mut out);
    assert_eq!(files.desk.dialog.as_ref().unwrap().shown(), vec![3]);
    out.clear();
    files.desk.press(Press::Enter, &mut out);
    assert_eq!(
        format!("{out:?}"),
        "[Open { path: \"Beta.txt\", name: \"Beta.txt\", uid: 70, write: false }]"
    );
    out.clear();
    files.desk.opened("/run/drv/doc", "Beta.txt", Err("gone".to_owned()), &mut out);
    assert_eq!(files.desk.dialog.as_ref().unwrap().page(1).hint, "Beta.txt: gone");
    out.clear();
    files.desk.opened("/run/drv/doc", "Beta.txt", Ok(12), &mut out);
    assert_eq!(
        format!("{out:?}"),
        "[Chosen { who: (4, 9), path: \"/run/drv/doc/12/Beta.txt\" }, Hide]"
    );
    match files.answer(&out[0]) {
        Some((4, FromFiles::Chosen { req: 9, paths })) => {
            assert_eq!(paths, vec!["/run/drv/doc/12/Beta.txt"])
        }
        other => panic!("{other:?}"),
    }
}

#[test]
fn saving_a_file_takes_a_name() {
    let mut files = Files::new();
    files.connected(4, "web".to_owned(), 70);
    let kind = Kind::Save { name: "../a\u{7}b.txt".to_owned() };
    files.said(4, ToFiles::Choose { req: 9, kind });
    let mut out = Vec::new();
    files.desk.listed(Ok(home()), &mut out);
    let page = files.desk.dialog.as_ref().unwrap().page(9);
    assert_eq!(page.typed, "name: ..ab.txt_");
    assert_eq!(page.rows.len(), 5);
    out.clear();
    files.desk.press(Press::Enter, &mut out);
    assert_eq!(
        format!("{out:?}"),
        "[Open { path: \"..ab.txt\", name: \"..ab.txt\", uid: 70, write: true }]"
    );
    for _ in 0..6 {
        files.desk.press(Press::BackSpace, &mut out);
    }
    out.clear();
    files.desk.press(Press::Enter, &mut out);
    assert_eq!(files.desk.dialog.as_ref().unwrap().note.as_deref(), Some("that is not a file name"));
    assert!(!files.desk.dialog.as_ref().unwrap().typed.contains('/'));
    // A picked file puts its name on the line.
    files.desk.press(Press::Up, &mut out);
    files.desk.press(Press::Enter, &mut out);
    assert_eq!(files.desk.dialog.as_ref().unwrap().typed, "zeta.txt");
    assert_eq!(files.desk.dialog.as_ref().unwrap().selected, None);
}

#[test]
fn the_rest_waits_and_goes_with_its_app() {
    let mut files = Files::new();
    files.connected(1, "a".to_owned(), 10);
    files.connected(2, "b".to_owned(), 20);
    files.said(1, ToFiles::Choose { req: 1, kind: Kind::Open });
    assert_eq!(files.said(2, ToFiles::Choose { req: 1, kind: Kind::Open }).len(), 0);
    assert_eq!(files.said(1, ToFiles::Choose { req: 2, kind: Kind::Open }).len(), 0);
    let acts = files.gone(1);
    assert_eq!(format!("{acts:?}"), "[Hide, Show, List { dir: \"\" }]");
    assert_eq!(files.desk.dialog.as_ref().unwrap().req.who, (2, 1));
    assert!(files.desk.queue.is_empty());
    let acts = files.said(2, ToFiles::Cancel { req: 1 });
    assert_eq!(format!("{acts:?}"), "[Hide]");
    assert_eq!(files.said(9, ToFiles::Choose { req: 1, kind: Kind::Open }).len(), 0);
    assert!(greeted(&ToFiles::Hello { version: 1 }));
    assert!(!greeted(&ToFiles::Hello { version: 3 }));
}

#[test]
fn a_directory_that_cannot_be_read_says_so() {
    let mut desk = Front::new();
    let mut out = Vec::new();
    desk.ask(
        Pending {
            who: (0, 1),
            app: "a".to_owned(),
            uid: 1,
            title: String::new(),
            what: What::Open,
        },
        &mut out,
    );
    desk.listed(Err("denied".to_owned()), &mut out);
    let page = desk.dialog.as_ref().unwrap().page(4);
    assert_eq!(page.hint, "cannot list /: denied");
    assert!(page.fault);
    assert_eq!(page.nothing, "nothing here");
    out.clear();
    desk.press(Press::Escape, &mut out);
    assert_eq!(format!("{out:?}"), "[Cancelled { who: (0, 1) }, Hide]");
    assert_eq!(sized(0, 300), (640, 300));
    assert_eq!(sized(100, 0), (100, 480));
    assert_eq!(scrolled(Some(9), 4), 6);
    assert_eq!(scrolled(Some(2), 4), 0);
    assert_eq!(scrolled(None, 4), 0);
}

#[test]
fn too_much_is_not_typed() {
    let mut desk = Front::new();
    let mut out = Vec::new();
    desk.ask(
        Pending {
            who: (0, 1),
            app: "a".to_owned(),
            uid: 1,
            title: String::new(),
            what: What::Save { name: "x".repeat(300) },
        },
        &mut out,
    );
    assert_eq!(desk.dialog.as_ref().unwrap().typed.len(), 200);
    out.clear();
    desk.press(typed("y"), &mut out);
    assert!(out.is_empty());
    desk.press(Press::BackSpace, &mut out);
    out.clear();
    desk.press(typed("/"), &mut out);
    assert!(out.is_empty());
    desk.press(typed("y"), &mut out);
    assert_eq!(format!("{out:?}"), "[Redraw]");
}

fn output(name: &str, width: i32) -> Output {
    Output {
        name: name.to_owned(),
        make: "Dell".to_owned(),
        model: "U2".to_owned(),
        width,
        height: 1080,
    }
}

#[test]
fn the_portal_shares_a_screen() {
    let mut portal = Portal::new();
    assert_eq!(format!("{:?}", portal.hello()), "[Hello { version: 6 }]");
    let acts = portal.cast(5, "web".to_owned(), 70, Cursor::Hidden);
    assert_eq!(format!("{acts:?}"), "[Tell(Outputs), Desk(Show)]");
    let acts = portal.compositor(ToPortal::Outputs(vec![output("DP-1", 1920), output("DP-2", 0)]));
    assert_eq!(format!("{acts:?}"), "[Desk(Redraw)]");
    let page = portal.desk.dialog.as_ref().unwrap().page(5);
    assert_eq!(page.head, "web wants to see your screen");
    assert_eq!(page.rows[0].detail, "Dell U2  1920x1080");
    assert_eq!(page.hint, "Enter share   Esc refuse");
    let acts = portal.press(Press::Enter);
    assert_eq!(
        format!("{acts:?}"),
        "[Tell(Start { cast: 5, output: \"DP-1\", cursor: Hidden }), Desk(Hide)]"
    );
    let acts = portal.compositor(ToPortal::Started { cast: 5, node_id: 3 });
    assert_eq!(
        format!("{acts:?}"),
        "[Cast { id: 5, node_id: 3, output: \"DP-1\", width: 1920, height: 1080 }]"
    );
    let acts = portal.cancel(5);
    assert_eq!(format!("{acts:?}"), "[Tell(Stop { cast: 5 })]");
    let acts = portal.compositor(ToPortal::Started { cast: 5, node_id: 3 });
    assert_eq!(format!("{acts:?}"), "[Tell(Stop { cast: 5 })]");
    assert!(portal.compositor(ToPortal::Stopped { cast: 5 }).is_empty());
}

#[test]
fn the_portal_has_nothing_to_share() {
    let mut portal = Portal::new();
    portal.cast(5, "web".to_owned(), 70, Cursor::Hidden);
    assert_eq!(portal.desk.dialog.as_ref().unwrap().page(5).nothing, "no screen is on");
    assert!(portal.press(Press::Enter).is_empty());
    let acts = portal.file(6, "web".to_owned(), 70, "Pick".to_owned(), Kind::Open);
    assert!(acts.is_empty());
    let acts = portal.cancel(5);
    assert_eq!(format!("{acts:?}"), "[Desk(Hide), Desk(Show), Desk(List { dir: \"\" })]");
    assert_eq!(portal.desk.dialog.as_ref().unwrap().page(1).title, "Pick");
    let acts = portal.press(Press::Escape);
    assert_eq!(format!("{acts:?}"), "[Desk(Cancelled { who: (0, 6) }), Desk(Hide)]");
}
