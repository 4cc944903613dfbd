use std::collections::BTreeMap;

use symsync::{Action, Config, Goal, Image, Jambon, SyncError};

/// What the transport would carry: the encrypted image and the blobs.
#[derive(Clone, Default)]
struct Remote {
    image: Option<Image>,
    blobs: BTreeMap<String, Vec<u8>>,
}

/// One machine: its working tree (content and mtime), local image and opaque tree.
#[derive(Default)]
struct Machine {
    tree: BTreeMap<String, (Vec<u8>, u64)>,
    image: Option<Image>,
    opaque: BTreeMap<String, Vec<u8>>,
}

fn config() -> Config {
    Config::load("0".repeat(64), "/tmp/opaque".to_string(), "push".to_string(), "pull".to_string()).unwrap()
}

fn pull(j: &mut Jambon, m: &mut Machine, name: &str, now: u64) -> Result<(), SyncError> {
    let blob_name = j.remote_blob(name)?;
    let blob = m.opaque.get(&blob_name).cloned().unwrap_or_default();
    let content = j.decrypt_remote(name, &blob)?;
    m.tree.insert(name.to_string(), (content, now));
    j.record_pulled(name, now)
}

fn publish(j: &Jambon, m: &mut Machine, remote: &mut Remote) {
    let names: Vec<String> = m.opaque.keys().cloned().collect();
    for orphan in j.clean_remote(&names) {
        m.opaque.remove(&orphan);
    }
    remote.image = Some(j.image_l.clone());
    remote.blobs = m.opaque.clone();
}

fn blind_push(m: &mut Machine, remote: &mut Remote, now: u64) {
    let mut j = Jambon::start(config(), Goal::BlindPush, None, None, false).unwrap();
    m.opaque.clear();
    let files: Vec<(String, Vec<u8>, u64)> = m.tree.iter().map(|(k, v)| (k.clone(), v.0.clone(), v.1)).collect();
    for (name, content, mtime) in files {
        let (h, blob) = j.encrypt_save_add(&name, &content, mtime, now, 40).unwrap();
        m.opaque.insert(h, blob);
    }
    let plan = j.finish(Goal::BlindPush);
    assert!(plan.save_local && plan.save_remote && plan.push);
    m.image = Some(j.image_l.clone());
    remote.image = Some(j.image_l.clone());
    remote.blobs = m.opaque.clone();
}

fn blind_pull(m: &mut Machine, remote: &Remote, now: u64) -> Vec<SyncError> {
    m.opaque = remote.blobs.clone();
    let mut j = Jambon::start(config(), Goal::BlindPull, None, remote.image.clone(), false).unwrap();
    let mut errors = Vec::new();
    for name in j.load_missing() {
        if let Err(e) = pull(&mut j, m, &name, now) {
            errors.push(e);
        }
    }
    m.image = Some(j.image_l.clone());
    errors
}

/// Runs an update; returns the actions taken and whether it pushed.
fn update(m: &mut Machine, remote: &mut Remote, now: u64) -> (Vec<Action>, bool) {
    m.opaque = remote.blobs.clone();
    let mut j = Jambon::start(config(), Goal::Update, m.image.clone(), remote.image.clone(), true).unwrap();
    let names: Vec<String> = m.tree.keys().cloned().collect();
    let mut actions = Vec::new();
    for name in &names {
        let (content, mtime) = m.tree[name].clone();
        let action = j.update(name, mtime);
        match action {
            Action::Push => {
                let (h, blob) = j.encrypt_save_add(name, &content, mtime, now, 40).unwrap();
                m.opaque.insert(h, blob);
                j.mark_changed();
            }
            Action::Pull => pull(&mut j, m, name, now).unwrap(),
            Action::Conflict => {
                m.tree.insert(symsync::engine::backup_name(name), (content, now));
                pull(&mut j, m, name, now).unwrap();
            }
            Action::LocalDelete => {
                m.tree.remove(name);
                j.drop_local(name, now).unwrap();
            }
            Action::CreatedRemotely | Action::Nothing => {}
        }
        if action != Action::Nothing {
            actions.push(action);
        }
    }
    for name in j.load_missing() {
        pull(&mut j, m, &name, now).unwrap();
        actions.push(Action::Pull);
    }
    let names: Vec<String> = m.tree.keys().cloned().collect();
    j.clean_image(&names, now);
    let plan = j.finish(Goal::Update);
    if plan.push {
        publish(&j, m, remote);
    }
    m.image = Some(j.image_l.clone());
    (actions, plan.push)
}

fn contents(m: &Machine) -> BTreeMap<String, Vec<u8>> {
    m.tree.iter().map(|(k, v)| (k.clone(), v.0.clone())).collect()
}

fn first_sync() -> (Machine, Machine, Remote) {
    let mut a = Machine::default();
    a.tree.insert("./a.txt".to_string(), (b"hello".to_vec(), 1000));
    a.tree.insert("./sub/b.txt".to_string(), (b"world".to_vec(), 1000));
    let mut remote = Remote::default();
    blind_push(&mut a, &mut remote, 1001);
    let mut b = Machine::default();
    assert!(blind_pull(&mut b, &remote, 1002).is_empty());
    (a, b, remote)
}

#[test]
fn blind_push_then_blind_pull() {
    let (a, b, remote) = first_sync();
    assert_eq!(remote.blobs.len(), 2);
    assert!(remote.image.is_some());
    assert_eq!(contents(&a), contents(&b));
    let img = b.image.as_ref().unwrap();
    for e in &img.filesystem {
        assert_eq!(b.tree[&e.name].1, e.modified);
    }
    assert!(img.get_index("./a.txt").is_some() && img.get_index("./sub/b.txt").is_some());
}

#[test]
fn failed_pull_does_not_stop_others() {
    let (a, _b, mut remote) = first_sync();
    let img = a.image.as_ref().unwrap();
    let h = img.filesystem[img.get_index("./a.txt").unwrap()].namehash.clone();
    remote.blobs.get_mut(&h).unwrap()[1] ^= 0x40;
    let mut c = Machine::default();
    let errors = blind_pull(&mut c, &remote, 3000);
    assert_eq!(errors.len(), 1);
    assert_eq!(c.tree["./sub/b.txt"].0, b"world".to_vec());
    assert!(c.image.as_ref().unwrap().get_index("./sub/b.txt").is_some());
    assert!(c.image.as_ref().unwrap().get_index("./a.txt").is_none());
}

#[test]
fn local_edit_then_update() {
    let (mut a, mut b, mut remote) = first_sync();
    let old_blob = remote.blobs.clone();
    a.tree.insert("./a.txt".to_string(), (b"HELLO".to_vec(), 2000));
    let (actions, pushed) = update(&mut a, &mut remote, 2001);
    assert_eq!(actions, vec![Action::Push]);
    assert!(pushed);
    assert_ne!(old_blob, remote.blobs);
    let (actions, _) = update(&mut b, &mut remote, 2002);
    assert_eq!(actions, vec![Action::Pull]);
    assert_eq!(b.tree["./a.txt"].0, b"HELLO".to_vec());
}

#[test]
fn second_update_does_nothing() {
    let (mut a, _b, mut remote) = first_sync();
    a.tree.insert("./a.txt".to_string(), (b"HELLO".to_vec(), 2000));
    let (_, pushed) = update(&mut a, &mut remote, 2001);
    assert!(pushed);
    let (actions, pushed) = update(&mut a, &mut remote, 2002);
    assert!(actions.is_empty());
    assert!(!pushed);
}

#[test]
fn concurrent_edit_conflict() {
    let (mut a, mut b, mut remote) = first_sync();
    a.tree.insert("./a.txt".to_string(), (b"from A".to_vec(), 2000));
    b.tree.insert("./a.txt".to_string(), (b"from B".to_vec(), 2000));
    update(&mut a, &mut remote, 2001);
    let (actions, _) = update(&mut b, &mut remote, 2002);
    assert!(actions.contains(&Action::Conflict));
    assert_eq!(b.tree["./a.txt"].0, b"from A".to_vec());
    assert_eq!(b.tree["./a.txt_local_backup"].0, b"from B".to_vec());
}

#[test]
fn local_delete_propagates() {
    let (mut a, mut b, mut remote) = first_sync();
    a.tree.remove("./sub/b.txt");
    let (_, pushed) = update(&mut a, &mut remote, 2001);
    assert!(pushed);
    assert_eq!(remote.blobs.len(), 1);
    let (actions, _) = update(&mut b, &mut remote, 2002);
    assert_eq!(actions, vec![Action::LocalDelete]);
    assert!(!b.tree.contains_key("./sub/b.txt"));
    assert!(b.image.as_ref().unwrap().get_index("./sub/b.txt").is_none());
    let (actions, pushed) = update(&mut a, &mut remote, 2003);
    assert!(actions.is_empty());
    assert!(!pushed);
}

#[test]
fn orphan_blobs_are_removed() {
    let (mut a, _b, mut remote) = first_sync();
    remote.blobs.insert("stray".to_string(), vec![1, 2, 3]);
    a.tree.insert("c.txt".to_string(), (b"new".to_vec(), 2000));
    update(&mut a, &mut remote, 2001);
    let mut expected: Vec<String> = a.image.as_ref().unwrap().get_hashnames();
    expected.sort();
    let names: Vec<String> = remote.blobs.keys().cloned().collect();
    assert_eq!(names, expected);
}

#[test]
fn tamper_detection() {
    let (a, _b, mut remote) = first_sync();
    let img = a.image.as_ref().unwrap();
    let h = img.filesystem[img.get_index("./a.txt").unwrap()].namehash.clone();
    remote.blobs.get_mut(&h).unwrap()[0] ^= 1;
    let mut c = Machine::default();
    let errors = blind_pull(&mut c, &remote, 3000);
    assert_eq!(errors, vec![SyncError::SignatureMismatch]);
    assert!(!c.tree.contains_key("./a.txt"));
    assert_eq!(c.tree["./sub/b.txt"].0, b"world".to_vec());
}
