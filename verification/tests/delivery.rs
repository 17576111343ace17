use arcme::config::FileSave;
use arcme::config::UserAndGroup;
use arcme::delivery::abort_steps;
use arcme::delivery::delivery_steps;
use arcme::delivery::staging_path;
use arcme::delivery::FsStep;
use std::collections::BTreeMap;

fn file(uid: Option<UserAndGroup>, gid: Option<UserAndGroup>) -> FileSave {
    FileSave { path: "/etc/ssl/private/web.pem".to_string(), mode: None, gid, uid }
}

const STAGED: &str = "/etc/ssl/private/web.pem.new";

#[test]
fn staged_beside_the_target() {
    assert_eq!(staging_path("/etc/ssl/private/web.pem"), STAGED);
    assert_eq!(staging_path("web.pem"), "web.pem.new");
    assert_eq!(staging_path("/web.pem"), "/web.pem.new");
    assert_eq!(staging_path("dir.d/web"), "dir.d/web.new");
    assert_eq!(staging_path(""), ".new");
}

#[test]
fn the_steps_in_their_order() {
    let ssl = Some(UserAndGroup::Name("ssl".to_string()));
    let root = Some(UserAndGroup::ID(0));
    let steps = delivery_steps(b"bytes".to_vec(), &file(root.clone(), ssl.clone()), Some(0o640));
    assert_eq!(
        steps,
        vec![
            FsStep::WriteNew { path: STAGED.to_string(), content: b"bytes".to_vec() },
            FsStep::SetMode { path: STAGED.to_string(), mode: 0o640 },
            FsStep::SetOwner { path: STAGED.to_string(), uid: root, gid: ssl },
            FsStep::Rename { from: STAGED.to_string(), to: "/etc/ssl/private/web.pem".to_string() },
        ]
    );
}

#[test]
fn only_the_steps_that_are_asked_for() {
    let write = FsStep::WriteNew { path: STAGED.to_string(), content: Vec::new() };
    let rename =
        FsStep::Rename { from: STAGED.to_string(), to: "/etc/ssl/private/web.pem".to_string() };
    assert_eq!(
        delivery_steps(Vec::new(), &file(None, None), None),
        vec![write.clone(), rename.clone()]
    );
    assert_eq!(
        delivery_steps(Vec::new(), &file(None, None), Some(0)),
        vec![write.clone(), FsStep::SetMode { path: STAGED.to_string(), mode: 0 }, rename.clone()]
    );
    let gid = Some(UserAndGroup::ID(33));
    assert_eq!(
        delivery_steps(Vec::new(), &file(None, gid.clone()), None),
        vec![
            write.clone(),
            FsStep::SetOwner { path: STAGED.to_string(), uid: None, gid },
            rename.clone()
        ]
    );
    let uid = Some(UserAndGroup::Name("www".to_string()));
    assert_eq!(
        delivery_steps(Vec::new(), &file(uid.clone(), None), None),
        vec![write, FsStep::SetOwner { path: STAGED.to_string(), uid, gid: None }, rename]
    );
}

#[test]
fn tidying_up() {
    assert_eq!(abort_steps(&file(None, None)), vec![FsStep::Remove { path: STAGED.to_string() }]);
}

/// A file system in memory on which a step may fail half way.
fn carry_out(fs: &mut BTreeMap<String, (Vec<u8>, u32)>, step: &FsStep, ok: bool) {
    match step {
        FsStep::WriteNew { path, content } => {
            let written = if ok { content.clone() } else { content[..content.len() / 2].to_vec() };
            fs.insert(path.clone(), (written, 0o600));
        }
        FsStep::SetMode { path, mode } => {
            if ok {
                fs.get_mut(path).unwrap().1 = *mode;
            }
        }
        FsStep::SetOwner { .. } => {}
        FsStep::Rename { from, to } => {
            if ok {
                let moved = fs.remove(from).unwrap();
                fs.insert(to.clone(), moved);
            }
        }
        FsStep::Remove { path } => {
            fs.remove(path);
        }
    }
}

#[test]
fn the_target_is_never_half_written() {
    let target = "/etc/ssl/private/web.pem".to_string();
    let old = (b"the certificate in place".to_vec(), 0o644);
    let new = (b"the certificate just issued".to_vec(), 0o640);
    let f = file(Some(UserAndGroup::ID(0)), None);
    let steps = delivery_steps(new.0.clone(), &f, Some(new.1));
    for fails_at in 0..=steps.len() {
        let mut fs = BTreeMap::new();
        fs.insert(target.clone(), old.clone());
        let mut failed = false;
        for (i, step) in steps.iter().enumerate() {
            let ok = i != fails_at;
            carry_out(&mut fs, step, ok);
            let seen = fs.get(&target).unwrap();
            assert!(*seen == old || *seen == new);
            if !ok {
                failed = true;
                break;
            }
            if i + 1 < steps.len() {
                assert_eq!(*seen, old);
            }
        }
        if failed {
            for step in abort_steps(&f) {
                carry_out(&mut fs, &step, true);
            }
            assert_eq!(fs.get(&target), Some(&old));
        } else {
            assert_eq!(fs.get(&target), Some(&new));
        }
        // nothing is left beside the target
        assert_eq!(fs.len(), 1);
    }
}
