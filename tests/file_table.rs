use occlum_libos::errno::Errno;
use occlum_libos::file_table::{FileRef, FileTable};
use occlum_libos::spawn::{apply_file_action, init_files, FileAction, O_CLOEXEC};

fn f(id: u64) -> FileRef {
    FileRef { id }
}

#[test]
fn put_takes_lowest_free_descriptor() {
    let mut t = FileTable::new();
    assert_eq!(t.put(f(1), false), 0);
    assert_eq!(t.put(f(2), false), 1);
    assert_eq!(t.put(f(3), false), 2);
    assert_eq!(t.del(1).unwrap(), f(2));
    assert_eq!(t.put(f(4), false), 1);
    assert_eq!(t.get(1).unwrap(), f(4));
}

#[test]
fn put_at_then_get_and_del() {
    let mut t = FileTable::new();
    t.put_at(5, f(7), false);
    assert_eq!(t.get(5).unwrap(), f(7));
    t.put_at(5, f(8), false);
    assert_eq!(t.get(5).unwrap(), f(8));
    assert_eq!(t.del(5).unwrap(), f(8));
    assert_eq!(t.get(5).unwrap_err().errno, Errno::EBADF);
    assert_eq!(t.get(3).unwrap_err().errno, Errno::EBADF);
    assert_eq!(t.del(5).unwrap_err().errno, Errno::EBADF);
}

#[test]
fn close_on_spawn_sweeps_marked_slots() {
    let mut t = FileTable::new();
    t.put(f(1), false);
    t.put(f(2), true);
    t.put(f(3), false);
    t.close_on_spawn();
    assert_eq!(t.get(0).unwrap(), f(1));
    assert_eq!(t.get(1).unwrap_err().errno, Errno::EBADF);
    assert_eq!(t.get(2).unwrap(), f(3));
}

#[test]
fn cloexec_open_action_is_swept() {
    // parent has fd 7 open without close-on-spawn
    let mut parent = FileTable::new();
    parent.put_at(7, f(70), false);
    let actions = vec![FileAction::Open {
        path: String::from("/tmp/x"),
        mode: 0o644,
        oflag: 2 | O_CLOEXEC,
        fd: 9,
    }];
    let opened = vec![Ok(f(90))];
    let child = init_files(3, &parent, &actions, &opened, f(100), f(101)).unwrap();
    assert_eq!(child.get(7).unwrap(), f(70));
    assert_eq!(child.get(9).unwrap_err().errno, Errno::EBADF);
}

#[test]
fn open_without_cloexec_stays() {
    let parent = FileTable::new();
    let actions = vec![FileAction::Open { path: String::from("/tmp/y"), mode: 0, oflag: 2, fd: 4 }];
    let opened = vec![Ok(f(40))];
    let child = init_files(3, &parent, &actions, &opened, f(100), f(101)).unwrap();
    assert_eq!(child.get(4).unwrap(), f(40));
}

#[test]
fn dup2_and_close_actions() {
    let mut parent = FileTable::new();
    parent.put_at(1, f(10), true);
    parent.put_at(2, f(20), false);
    let actions = vec![FileAction::Dup2(1, 5), FileAction::Close(2), FileAction::Close(8)];
    let opened = vec![Ok(f(0)), Ok(f(0)), Ok(f(0))];
    let child = init_files(3, &parent, &actions, &opened, f(100), f(101)).unwrap();
    // the duplicate does not inherit close-on-spawn; the source descriptor is swept
    assert_eq!(child.get(5).unwrap(), f(10));
    assert_eq!(child.get(1).unwrap_err().errno, Errno::EBADF);
    assert_eq!(child.get(2).unwrap_err().errno, Errno::EBADF);
}

#[test]
fn dup2_of_missing_descriptor_fails() {
    let parent = FileTable::new();
    let actions = vec![FileAction::Dup2(3, 4)];
    let opened = vec![Ok(f(0))];
    let r = init_files(3, &parent, &actions, &opened, f(100), f(101));
    assert_eq!(r.err().unwrap().errno, Errno::EBADF);
}

#[test]
fn failed_open_fails_the_spawn() {
    let parent = FileTable::new();
    let actions = vec![FileAction::Open { path: String::from("/nope"), mode: 0, oflag: 0, fd: 3 }];
    let opened = vec![Err(occlum_libos::errno::Error::new(Errno::ENOENT, "no such file"))];
    let r = init_files(3, &parent, &actions, &opened, f(100), f(101));
    assert_eq!(r.err().unwrap().errno, Errno::ENOENT);
}

#[test]
fn child_of_idle_gets_standard_streams() {
    let mut parent = FileTable::new();
    parent.put_at(7, f(70), false);
    let child = init_files(0, &parent, &vec![], &vec![], f(100), f(101)).unwrap();
    assert_eq!(child.get(0).unwrap(), f(100));
    assert_eq!(child.get(1).unwrap(), f(101));
    assert_eq!(child.get(2).unwrap(), f(101));
    assert_eq!(child.get(7).unwrap_err().errno, Errno::EBADF);
}

#[test]
fn actions_apply_one_at_a_time() {
    let mut t = FileTable::new();
    let open = FileAction::Open { path: String::from("/a"), mode: 0, oflag: 0, fd: 2 };
    apply_file_action(&mut t, &open, &Ok(f(5))).unwrap();
    assert_eq!(t.get(2).unwrap(), f(5));
    apply_file_action(&mut t, &FileAction::Dup2(2, 2), &Ok(f(0))).unwrap();
    assert_eq!(t.get(2).unwrap(), f(5));
    assert_eq!(
        apply_file_action(&mut t, &FileAction::Dup2(4, 2), &Ok(f(0))).unwrap_err().errno,
        Errno::EBADF
    );
    apply_file_action(&mut t, &FileAction::Close(2), &Ok(f(0))).unwrap();
    assert_eq!(t.get(2).unwrap_err().errno, Errno::EBADF);
}
