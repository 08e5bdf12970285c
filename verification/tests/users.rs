use psmem::filter::Filters;
use psmem::stats::User;
use psmem::users::UserDirectory;

fn user(uid: u32, name: &str) -> User {
    User { uid, name: name.as_bytes().to_vec() }
}

fn name_of(directory: &UserDirectory, uid: u32) -> Option<Vec<u8>> {
    directory.resolve(uid).map(|owner| {
        assert_eq!(owner.uid, uid);
        owner.name
    })
}

#[test]
fn directory_without_filter_knows_every_user() {
    let users = vec![user(0, "root"), user(1000, "alice"), user(1001, "bob")];
    let directory = UserDirectory::build(&users, &Filters::new());
    assert_eq!(name_of(&directory, 0), Some(b"root".to_vec()));
    assert_eq!(name_of(&directory, 1000), Some(b"alice".to_vec()));
    assert_eq!(name_of(&directory, 1001), Some(b"bob".to_vec()));
}

#[test]
fn directory_excludes_users_that_the_filter_rejects() {
    let users = vec![user(0, "root"), user(1000, "alice"), user(1001, "bob")];
    let mut filters = Filters::new();
    filters.user("^alice$");
    let directory = UserDirectory::build(&users, &filters);
    assert_eq!(name_of(&directory, 0), None);
    assert_eq!(name_of(&directory, 1000), Some(b"alice".to_vec()));
    assert_eq!(name_of(&directory, 1001), None);
}

#[test]
fn directory_gives_unknown_uid_an_empty_name() {
    let users = vec![user(0, "root")];
    let mut filters = Filters::new();
    filters.user("nobody-has-this-name");
    let directory = UserDirectory::build(&users, &filters);
    assert_eq!(name_of(&directory, 0), None);
    assert_eq!(name_of(&directory, 4242), Some(Vec::new()));
    let empty = UserDirectory::build(&Vec::new(), &Filters::new());
    assert_eq!(name_of(&empty, 0), Some(Vec::new()));
}

#[test]
fn directory_lets_the_last_entry_of_a_uid_decide() {
    let users = vec![user(7, "first"), user(8, "other"), user(7, "second")];
    let directory = UserDirectory::build(&users, &Filters::new());
    assert_eq!(name_of(&directory, 7), Some(b"second".to_vec()));
    let mut filters = Filters::new();
    filters.user("first");
    let filtered = UserDirectory::build(&users, &filters);
    assert_eq!(name_of(&filtered, 7), None);
    assert_eq!(name_of(&filtered, 8), None);
}

#[test]
fn directory_ignores_the_process_filter() {
    let users = vec![user(0, "root")];
    let mut filters = Filters::new();
    filters.process("nothing");
    let directory = UserDirectory::build(&users, &filters);
    assert_eq!(name_of(&directory, 0), Some(b"root".to_vec()));
}
