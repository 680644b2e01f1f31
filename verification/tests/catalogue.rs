use project_store::dal::{located, Creating, Listed, Lookup, Project, DAL, MAX_CONNECTIONS};
use project_store::error::{Error, Failure};

/// Carries a creation through every step, with these answers.
fn creation(
    dal: &DAL<u32>,
    project: &str,
    made: Result<(), Failure>,
    connected: Result<u32, Failure>,
    executed: Result<(), Failure>,
) -> Creating<u32> {
    let mut step = dal.creation(project).unwrap();
    loop {
        step = match step {
            Creating::MakeFile(path) => Creating::after_file(path, made),
            Creating::Connect(_) => Creating::after_connect(connected),
            Creating::Provision(pool) => Creating::after_provision(pool, executed),
            Creating::Done(outcome) => return Creating::Done(outcome),
        };
    }
}

/// A creation in which everything works, with `pool` as the connection.
fn created(dal: &DAL<u32>, project: &str, pool: u32) -> Creating<u32> {
    creation(dal, project, Ok(()), Ok(pool), Ok(()))
}

/// A creation that finds the file in its way.
fn refused(dal: &DAL<u32>, project: &str) -> Creating<u32> {
    creation(dal, project, Err(Failure::AlreadyExists), Ok(99), Ok(()))
}

fn name(text: &str) -> Listed {
    Listed::Name(text.to_owned())
}

#[test]
fn dal_test_projects() {
    let mut dal: DAL<u32> = DAL::new("projects".to_owned());

    assert_eq!(dal.projects(Ok(vec![])).unwrap(), Vec::<String>::new());

    // add a project

    let step = created(&dal, "test 1", 7);
    dal.create_project("test 1", step).unwrap();

    assert_eq!(dal.projects(Ok(vec![name("test 1")])).unwrap(), vec!["test 1".to_owned()]);

    // delete project

    dal.delete_project("test 1", Ok(())).unwrap();

    assert_eq!(dal.projects(Ok(vec![])).unwrap(), Vec::<String>::new());
}

#[test]
fn test_duplicated_project() {
    let mut dal: DAL<u32> = DAL::new("projects".to_owned());

    let step = created(&dal, "test dublicated", 1);
    dal.create_project("test dublicated", step).unwrap();

    // second call should fail, because project already exists

    let step = refused(&dal, "test dublicated");
    assert!(dal.create_project("test dublicated", step).is_err());

    // clean up projects after test

    dal.delete_project("test dublicated", Ok(())).unwrap();
}

#[test]
fn second_creation_is_already_exists_and_keeps_the_first_store() {
    let mut dal: DAL<u32> = DAL::new("projects".to_owned());
    let step = created(&dal, "a", 1);
    assert_eq!(*dal.create_project("a", step).unwrap().pool(), 1);
    let step = refused(&dal, "a");
    assert_eq!(dal.create_project("a", step).err(), Some(Error::AlreadyExists));
    assert_eq!(dal.cached("a").map(|p| *p.pool()), Some(1));
}

#[test]
fn creation_goes_step_by_step() {
    let dal: DAL<u32> = DAL::new("projects".to_owned());
    let path = dal.project_path("a").unwrap();
    assert!(matches!(dal.creation("a"), Ok(Creating::MakeFile(p)) if p == path));
    assert!(matches!(
        Creating::<u32>::after_file(path.clone(), Ok(())),
        Creating::Connect(p) if p == path
    ));
    assert!(matches!(Creating::after_connect(Ok(4u32)), Creating::Provision(4)));
    assert!(matches!(Creating::after_provision(4u32, Ok(())), Creating::Done(Ok(4))));
}

#[test]
fn creation_ends_at_the_first_failure() {
    let path = "projects/a".to_owned();
    assert!(matches!(
        Creating::<u32>::after_file(path.clone(), Err(Failure::AlreadyExists)),
        Creating::Done(Err(Error::AlreadyExists))
    ));
    assert!(matches!(
        Creating::<u32>::after_file(path.clone(), Err(Failure::Other)),
        Creating::Done(Err(Error::Io))
    ));
    assert!(matches!(
        Creating::<u32>::after_file(path, Err(Failure::NotFound)),
        Creating::Done(Err(Error::Io))
    ));
    assert!(matches!(
        Creating::<u32>::after_connect(Err(Failure::NotFound)),
        Creating::Done(Err(Error::NotFound))
    ));
    assert!(matches!(
        Creating::<u32>::after_connect(Err(Failure::Other)),
        Creating::Done(Err(Error::Io))
    ));
    assert!(matches!(
        Creating::after_provision(4u32, Err(Failure::Other)),
        Creating::Done(Err(Error::Io))
    ));
    assert!(matches!(
        Creating::after_provision(4u32, Err(Failure::AlreadyExists)),
        Creating::Done(Err(Error::Io))
    ));
}

#[test]
fn creation_errors_by_how_far_the_work_got() {
    let mut dal: DAL<u32> = DAL::new("projects".to_owned());
    let step = creation(&dal, "a", Err(Failure::Other), Ok(1), Ok(()));
    assert_eq!(dal.create_project("a", step).err(), Some(Error::Io));
    let step = creation(&dal, "a", Ok(()), Err(Failure::NotFound), Ok(()));
    assert_eq!(dal.create_project("a", step).err(), Some(Error::NotFound));
    let step = creation(&dal, "a", Ok(()), Err(Failure::Other), Ok(()));
    assert_eq!(dal.create_project("a", step).err(), Some(Error::Io));
    let step = creation(&dal, "a", Ok(()), Ok(1), Err(Failure::Other));
    assert_eq!(dal.create_project("a", step).err(), Some(Error::Io));
    // a creation that was left before its end has made no store
    assert_eq!(dal.create_project("a", Creating::Provision(1)).err(), Some(Error::Io));
    assert_eq!(dal.create_project("a", Creating::Connect("p".to_owned())).err(), Some(Error::Io));
    assert_eq!(dal.create_project("a", Creating::MakeFile("p".to_owned())).err(), Some(Error::Io));
    // a failed creation is never kept
    assert!(dal.cached("a").is_none());
}

#[test]
fn delete_of_a_project_never_created_is_not_found() {
    let dal: DAL<u32> = DAL::new("projects".to_owned());
    assert_eq!(dal.delete_project("nope", Err(Failure::NotFound)), Err(Error::NotFound));
    assert_eq!(dal.delete_project("nope", Err(Failure::Other)), Err(Error::Io));
    assert_eq!(dal.delete_project("nope", Err(Failure::AlreadyExists)), Err(Error::Io));
}

#[test]
fn delete_does_not_evict_the_kept_store() {
    let mut dal: DAL<u32> = DAL::new("projects".to_owned());
    let step = created(&dal, "a", 5);
    dal.create_project("a", step).unwrap();
    dal.delete_project("a", Ok(())).unwrap();
    assert_eq!(dal.cached("a").map(|p| *p.pool()), Some(5));
}

#[test]
fn project_opens_once_and_is_kept() {
    let mut dal: DAL<u32> = DAL::new("projects".to_owned());
    assert!(dal.cached("a").is_none());
    assert_eq!(*dal.project("a", Ok(3)).unwrap().pool(), 3);
    assert_eq!(dal.cached("a").map(|p| *p.pool()), Some(3));
    assert!(dal.cached("b").is_none());
}

#[test]
fn project_that_cannot_be_opened_is_not_kept() {
    let mut dal: DAL<u32> = DAL::new("projects".to_owned());
    assert_eq!(dal.project("a", Err(Failure::NotFound)).err(), Some(Error::NotFound));
    assert_eq!(dal.project("a", Err(Failure::Other)).err(), Some(Error::Io));
    assert_eq!(dal.project("a", Err(Failure::AlreadyExists)).err(), Some(Error::Io));
    assert!(dal.cached("a").is_none());
}

#[test]
fn two_opens_of_one_project_last_writer_wins() {
    let mut dal: DAL<u32> = DAL::new("projects".to_owned());
    // both lookups missed, both connections were made
    assert!(dal.cached("a").is_none());
    assert!(dal.cached("a").is_none());
    assert_eq!(*dal.project("a", Ok(1)).unwrap().pool(), 1);
    assert_eq!(*dal.project("a", Ok(2)).unwrap().pool(), 2);
    assert_eq!(dal.cached("a").map(|p| *p.pool()), Some(2));
    // other projects are untouched by the replacement
    dal.project("b", Ok(9)).unwrap();
    dal.project("a", Ok(4)).unwrap();
    assert_eq!(dal.cached("b").map(|p| *p.pool()), Some(9));
    assert_eq!(dal.cached("a").map(|p| *p.pool()), Some(4));
}

#[test]
fn listing_is_all_or_nothing_and_the_first_bad_place_decides() {
    let dal: DAL<u32> = DAL::new("projects".to_owned());
    assert_eq!(
        dal.projects(Ok(vec![name("b"), name("a"), name("c")])).unwrap(),
        vec!["b".to_owned(), "a".to_owned(), "c".to_owned()]
    );
    assert_eq!(dal.projects(Ok(vec![name("a"), Listed::NotUtf8])), Err(Error::InvalidName));
    assert_eq!(
        dal.projects(Ok(vec![name("a"), Listed::NotUtf8, Listed::Unreadable])),
        Err(Error::InvalidName)
    );
    assert_eq!(
        dal.projects(Ok(vec![Listed::Unreadable, Listed::NotUtf8, name("a")])),
        Err(Error::Io)
    );
    assert_eq!(dal.projects(Err(Failure::NotFound)), Err(Error::Io));
    assert_eq!(dal.projects(Err(Failure::Other)), Err(Error::Io));
}

#[test]
fn new_catalogue_keeps_its_root_and_nothing_else() {
    let dal: DAL<u32> = DAL::new("some/dir".to_owned());
    assert_eq!(dal.path(), "some/dir");
    assert!(dal.cached("").is_none());
}

#[test]
fn project_path_lies_under_the_root() {
    let dal: DAL<u32> = DAL::new("root".to_owned());
    let path = dal.project_path("test 1").unwrap();
    assert_ne!(path, "root");
    assert_ne!(path, "test 1");
    assert_eq!(std::path::Path::new(&path), std::path::Path::new("root").join("test 1"));
}

#[test]
fn store_open() {
    assert_eq!(*Project::open(Ok(8u32)).unwrap().pool(), 8);
    assert_eq!(Project::<u32>::open(Err(Failure::NotFound)).err(), Some(Error::NotFound));
    assert_eq!(Project::<u32>::open(Err(Failure::Other)).err(), Some(Error::Io));
    assert_eq!(Project::<u32>::open(Err(Failure::AlreadyExists)).err(), Some(Error::Io));
    assert_eq!(MAX_CONNECTIONS, 1);
}

#[test]
fn failures_map_to_errors() {
    assert_eq!(Failure::NotFound.on_lookup(), Error::NotFound);
    assert_eq!(Failure::AlreadyExists.on_lookup(), Error::Io);
    assert_eq!(Failure::Other.on_lookup(), Error::Io);
    assert_eq!(Failure::AlreadyExists.on_creation(), Error::AlreadyExists);
    assert_eq!(Failure::NotFound.on_creation(), Error::Io);
    assert_eq!(Failure::Other.on_creation(), Error::Io);
    assert_eq!(Error::InvalidName.message(), "couldn't parse file name into valid UTF-8");
    assert_ne!(Error::Io.message(), Error::NotFound.message());
    assert_ne!(Error::AlreadyExists.message(), Error::NotFound.message());
}

#[test]
fn lookup_says_kept_or_open() {
    let mut dal: DAL<u32> = DAL::new("root".to_owned());
    match dal.lookup("a") {
        Ok(Lookup::Open(path)) => assert_eq!(path, dal.project_path("a").unwrap()),
        _ => panic!("nothing is kept yet"),
    }
    dal.project("a", Ok(6)).unwrap();
    match dal.lookup("a") {
        Ok(Lookup::Kept(p)) => assert_eq!(*p.pool(), 6),
        _ => panic!("the store is kept"),
    }
    assert!(matches!(dal.lookup("b"), Ok(Lookup::Open(_))));
}

#[test]
fn project_path_is_the_same_each_time_and_follows_the_name() {
    let dal: DAL<u32> = DAL::new("root".to_owned());
    assert_eq!(dal.project_path("a"), dal.project_path("a"));
    assert_ne!(dal.project_path("a"), dal.project_path("b"));
    let other: DAL<u32> = DAL::new("elsewhere".to_owned());
    assert_ne!(dal.project_path("a"), other.project_path("a"));
    let path = dal.project_path("a").unwrap();
    assert!(path.starts_with("root"));
    assert!(path.ends_with("a"));
    assert!(path.len() > "root".len() + "a".len());
}

#[test]
fn a_joined_path_is_the_path_or_an_invalid_name() {
    assert_eq!(located(Some("root/a".to_owned())), Ok("root/a".to_owned()));
    assert_eq!(located(Some(String::new())), Ok(String::new()));
    assert_eq!(located(None), Err(Error::InvalidName));
}

#[test]
fn creation_begins_with_the_file_at_the_projects_path() {
    assert!(matches!(
        Creating::<u32>::begin(Ok("root/a".to_owned())),
        Ok(Creating::MakeFile(path)) if path == "root/a"
    ));
    assert!(matches!(Creating::<u32>::begin(Err(Error::InvalidName)), Err(Error::InvalidName)));
    assert!(matches!(Creating::<u32>::begin(Err(Error::Io)), Err(Error::Io)));

    let dal: DAL<u32> = DAL::new("root".to_owned());
    let path = dal.project_path("test 1").unwrap();
    assert!(matches!(dal.creation("test 1"), Ok(Creating::MakeFile(p)) if p == path));
    assert!(matches!(dal.creation("other"), Ok(Creating::MakeFile(p)) if p != path));
    assert!(matches!(dal.lookup("test 1"), Ok(Lookup::Open(p)) if p == path));
}
