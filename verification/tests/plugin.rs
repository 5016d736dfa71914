use awebot::error::{Error, Failure};
use awebot::plugin::{comes_before, is_plugin, Modified, PluginCache, PluginFile, PluginStep};

fn file(path: &str, secs: i64) -> PluginFile {
    PluginFile { path: path.to_owned(), modified: Modified { secs, nanos: 0 } }
}

fn failure(message: &str) -> Failure {
    Failure { message: message.to_owned(), causes: Vec::new() }
}

/// What a scan asked for.
#[derive(Debug, PartialEq, Eq)]
enum Asked {
    Load(String),
    Invoke(String, u32),
}

/// Drives a scan to its end. Every load gives the next number as the module,
/// but for the paths in `broken`; every call succeeds, but for the paths in
/// `failing`.
fn drive(
    cache: &mut PluginCache<u32>,
    files: Vec<PluginFile>,
    next_module: &mut u32,
    broken: &[&str],
    failing: &[&str],
) -> (Vec<Asked>, Result<(), Error>) {
    let mut asked = Vec::new();
    let mut step = cache.scan(files);
    loop {
        step = match step {
            PluginStep::Load { ticket } => {
                let path = ticket.path().to_owned();
                assert!(cache.module(&path).is_none());
                asked.push(Asked::Load(path.clone()));
                if broken.contains(&path.as_str()) {
                    cache.loaded(ticket, None)
                } else {
                    *next_module += 1;
                    let modified = ticket.modified();
                    let step = cache.loaded(ticket, Some(*next_module));
                    assert_eq!(cache.modified(&path), Some(modified));
                    step
                }
            }
            PluginStep::Invoke { ticket } => {
                let path = ticket.path().to_owned();
                let module = *cache.module(&path).unwrap();
                asked.push(Asked::Invoke(path.clone(), module));
                if failing.contains(&path.as_str()) {
                    cache.invoked(ticket, Err(failure("plugin failed")))
                } else {
                    cache.invoked(ticket, Ok(()))
                }
            }
            PluginStep::Finished { result } => return (asked, result),
        }
    }
}

fn load(path: &str) -> Asked {
    Asked::Load(path.to_owned())
}

fn invoke(path: &str, module: u32) -> Asked {
    Asked::Invoke(path.to_owned(), module)
}

#[test]
fn plugin_files_are_told_by_their_extension() {
    assert!(is_plugin("plugins/libgreet.so"));
    assert!(is_plugin("greet.dll"));
    assert!(is_plugin("greet.dylib"));
    assert!(is_plugin("greet.tar.so"));
    assert!(is_plugin("/abs/dir.d/x.so"));
    assert!(!is_plugin("greet.txt"));
    assert!(!is_plugin("greet"));
    assert!(!is_plugin("greet."));
    assert!(!is_plugin("greet.so.bak"));
    assert!(!is_plugin("greet.SO"));
    assert!(!is_plugin("greet.soo"));
    assert!(!is_plugin("greet.s"));
    assert!(!is_plugin(".so"));
    assert!(!is_plugin("plugins/.so"));
    assert!(!is_plugin("plugins.so/readme"));
    assert!(!is_plugin(""));
}

#[test]
fn paths_are_ordered_as_in_the_dictionary() {
    assert!(comes_before("a.so", "b.so"));
    assert!(!comes_before("b.so", "a.so"));
    assert!(!comes_before("a.so", "a.so"));
    assert!(comes_before("a", "a.so"));
    assert!(!comes_before("a.so", "a"));
    assert!(comes_before("", "a"));
    assert!(!comes_before("", ""));
    assert!(comes_before("B.so", "a.so"));
    assert!(comes_before("z.so", "é.so"));
}

#[test]
fn plugins_are_visited_in_the_order_of_their_paths() {
    let mut cache: PluginCache<u32> = PluginCache::new();
    let mut n = 0;
    let files = vec![
        file("p/c.so", 1),
        file("p/readme.txt", 1),
        file("p/a.so", 1),
        file("p/b.dll", 1),
        file("p/a.so", 2),
        file("p/.so", 1),
    ];
    let (asked, result) = drive(&mut cache, files, &mut n, &[], &[]);
    assert_eq!(result, Ok(()));
    assert_eq!(
        asked,
        vec![
            load("p/a.so"),
            invoke("p/a.so", 1),
            load("p/b.dll"),
            invoke("p/b.dll", 2),
            load("p/c.so"),
            invoke("p/c.so", 3),
        ]
    );
    assert_eq!(cache.modified("p/a.so"), Some(Modified { secs: 1, nanos: 0 }));
    assert_eq!(cache.modified("p/readme.txt"), None);
}

#[test]
fn an_unchanged_file_is_loaded_once() {
    let mut cache: PluginCache<u32> = PluginCache::new();
    let mut n = 0;
    let files = vec![file("a.so", 10), file("b.so", 20)];
    let (first, _) = drive(&mut cache, files.clone(), &mut n, &[], &[]);
    assert_eq!(
        first,
        vec![load("a.so"), invoke("a.so", 1), load("b.so"), invoke("b.so", 2)]
    );
    let (second, result) = drive(&mut cache, files.clone(), &mut n, &[], &[]);
    assert_eq!(result, Ok(()));
    assert_eq!(second, vec![invoke("a.so", 1), invoke("b.so", 2)]);
    let (third, _) = drive(&mut cache, files, &mut n, &[], &[]);
    assert_eq!(third, vec![invoke("a.so", 1), invoke("b.so", 2)]);
    assert_eq!(n, 2);
}

#[test]
fn a_changed_file_is_loaded_afresh_before_it_is_called() {
    let mut cache: PluginCache<u32> = PluginCache::new();
    let mut n = 0;
    drive(&mut cache, vec![file("a.so", 10), file("b.so", 20)], &mut n, &[], &[]);
    let changed = vec![file("a.so", 11), file("b.so", 20)];
    let (asked, result) = drive(&mut cache, changed.clone(), &mut n, &[], &[]);
    assert_eq!(result, Ok(()));
    assert_eq!(asked, vec![load("a.so"), invoke("a.so", 3), invoke("b.so", 2)]);
    let (asked, _) = drive(&mut cache, changed, &mut n, &[], &[]);
    assert_eq!(asked, vec![invoke("a.so", 3), invoke("b.so", 2)]);
    // an older time of change is a change too
    let (asked, _) = drive(&mut cache, vec![file("a.so", 5)], &mut n, &[], &[]);
    assert_eq!(asked, vec![load("a.so"), invoke("a.so", 4)]);
    let nanos = PluginFile { path: "a.so".to_owned(), modified: Modified { secs: 5, nanos: 1 } };
    let (asked, _) = drive(&mut cache, vec![nanos], &mut n, &[], &[]);
    assert_eq!(asked, vec![load("a.so"), invoke("a.so", 5)]);
}

#[test]
fn a_failing_plugin_ends_the_scan_but_not_the_next() {
    let mut cache: PluginCache<u32> = PluginCache::new();
    let mut n = 0;
    let files = vec![file("a.so", 1), file("b.so", 1), file("c.so", 1)];
    let (asked, result) = drive(&mut cache, files.clone(), &mut n, &[], &["b.so"]);
    assert_eq!(result, Err(Error::Ephemeral(failure("plugin failed"))));
    assert_eq!(
        asked,
        vec![load("a.so"), invoke("a.so", 1), load("b.so"), invoke("b.so", 2)]
    );
    assert!(cache.module("c.so").is_none());
    assert_eq!(cache.module("b.so"), Some(&2));

    let (asked, result) = drive(&mut cache, files, &mut n, &[], &[]);
    assert_eq!(result, Ok(()));
    assert_eq!(
        asked,
        vec![invoke("a.so", 1), invoke("b.so", 2), load("c.so"), invoke("c.so", 3)]
    );
}

#[test]
fn a_file_that_cannot_be_loaded_is_passed_over() {
    let mut cache: PluginCache<u32> = PluginCache::new();
    let mut n = 0;
    let files = vec![file("a.so", 1), file("b.so", 1), file("c.so", 1)];
    let (asked, result) = drive(&mut cache, files.clone(), &mut n, &["b.so"], &[]);
    assert_eq!(result, Ok(()));
    assert_eq!(
        asked,
        vec![load("a.so"), invoke("a.so", 1), load("b.so"), load("c.so"), invoke("c.so", 2)]
    );
    assert!(cache.module("b.so").is_none());
    // it is tried again for the next line
    let (asked, _) = drive(&mut cache, files, &mut n, &[], &[]);
    assert_eq!(
        asked,
        vec![invoke("a.so", 1), load("b.so"), invoke("b.so", 3), invoke("c.so", 2)]
    );
}

#[test]
fn a_scan_of_no_plugins_is_over_at_once() {
    let mut cache: PluginCache<u32> = PluginCache::new();
    let mut n = 0;
    assert_eq!(drive(&mut cache, Vec::new(), &mut n, &[], &[]), (Vec::new(), Ok(())));
    let files = vec![file("notes.txt", 1), file("Makefile", 2)];
    assert_eq!(drive(&mut cache, files, &mut n, &[], &[]), (Vec::new(), Ok(())));
}

#[test]
fn a_file_that_is_gone_keeps_its_module_until_it_changes() {
    let mut cache: PluginCache<u32> = PluginCache::new();
    let mut n = 0;
    drive(&mut cache, vec![file("a.so", 1), file("b.so", 1)], &mut n, &[], &[]);
    let (asked, _) = drive(&mut cache, vec![file("b.so", 1)], &mut n, &[], &[]);
    assert_eq!(asked, vec![invoke("b.so", 2)]);
    assert_eq!(cache.module("a.so"), Some(&1));
}
