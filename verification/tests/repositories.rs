use oaf::mru_list::MruList;
use oaf::path_string::PathUnits;
use oaf::repositories::RepoEntry;
use oaf::repositories::Repositories;

fn entry(path: &str, workdir: Option<&str>) -> RepoEntry {
    RepoEntry { path: path.to_owned(), workdir: workdir.map(|w| w.to_owned()) }
}

#[test]
fn a_new_registry_is_empty() {
    let repos = Repositories::new(MruList::new("mru.txt", 20));
    assert_eq!(repos.iter().len(), 0);
    assert!(!repos.repo_is_open("/src/oaf"));
}

#[test]
fn registered_repositories_answer_to_path_and_workdir() {
    let mut repos = Repositories::new(MruList::new("mru.txt", 20));
    repos.register(entry("/src/oaf/.git", Some("/src/oaf")));
    repos.register(entry("/srv/bare.git", None));
    assert_eq!(repos.iter().len(), 2);
    assert!(repos.repo_is_open("/src/oaf/.git"));
    assert!(repos.repo_is_open("/src/oaf"));
    assert!(repos.repo_is_open("/srv/bare.git"));
    assert!(!repos.repo_is_open("/srv/bare"));
    assert!(!repos.repo_is_open("/src/other"));
}

#[test]
fn the_registry_keeps_its_mru_list() {
    let mut mru = MruList::new("mru.txt", 20);
    mru.insert(PathUnits::Unix(b"/src/oaf".to_vec()));
    let repos = Repositories::new(mru);
    assert_eq!(repos.mru.len(), 1);
}
