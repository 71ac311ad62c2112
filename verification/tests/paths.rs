use oaf::paths::WellKnownPaths;
use oaf::paths::compress_tilde_impl;
use oaf::paths::dedup_paths;
use oaf::paths::expand_tilde_impl;
use oaf::paths::str_eq;
use oaf::utils;

#[test]
fn paths_compress_tilde_impl_works() {
    let home = "/home/heart";
    assert_eq!(compress_tilde_impl("", home), "");
    assert_eq!(compress_tilde_impl("/", home), "/");
    assert_eq!(compress_tilde_impl(".", home), ".");
    assert_eq!(compress_tilde_impl("/home/bob", home), "/home/bob");
    assert_eq!(compress_tilde_impl("/home/philip", home), "/home/philip");
    assert_eq!(compress_tilde_impl("/home/heart", home), "~");
    assert_eq!(compress_tilde_impl("/home/heart/", home), "~/");
    assert_eq!(compress_tilde_impl("/home/heart/pics", home), "~/pics");
}

#[test]
fn paths_expand_tilde_impl_works() {
    let home = "/home/heart";
    assert_eq!(expand_tilde_impl("", home), "");
    assert_eq!(expand_tilde_impl("/", home), "/");
    assert_eq!(expand_tilde_impl(".", home), ".");
    assert_eq!(expand_tilde_impl("/home/bob", home), "/home/bob");
    assert_eq!(expand_tilde_impl("/home/philip", home), "/home/philip");
    assert_eq!(expand_tilde_impl("~", home), "/home/heart");
    assert_eq!(expand_tilde_impl("~/", home), "/home/heart/");
    assert_eq!(expand_tilde_impl("~/pics", home), "/home/heart/pics");
}

#[test]
fn utils_compress_tilde_impl_works() {
    let home = "/home/phil";
    assert_eq!(compress_tilde_impl("", home), "");
    assert_eq!(compress_tilde_impl("/", home), "/");
    assert_eq!(compress_tilde_impl(".", home), ".");
    assert_eq!(compress_tilde_impl("/home/bob", home), "/home/bob");
    assert_eq!(compress_tilde_impl("/home/philip", home), "/home/philip");
    assert_eq!(compress_tilde_impl("/home/phil", home), "~");
    assert_eq!(compress_tilde_impl("/home/phil/", home), "~/");
    assert_eq!(compress_tilde_impl("/home/phil/pics", home), "~/pics");
}

#[test]
fn utils_expand_tilde_impl_works() {
    let home = "/home/phil";
    assert_eq!(expand_tilde_impl("", home), "");
    assert_eq!(expand_tilde_impl("/", home), "/");
    assert_eq!(expand_tilde_impl(".", home), ".");
    assert_eq!(expand_tilde_impl("/home/bob", home), "/home/bob");
    assert_eq!(expand_tilde_impl("/home/philip", home), "/home/philip");
    assert_eq!(expand_tilde_impl("~", home), "/home/phil");
    assert_eq!(expand_tilde_impl("~/", home), "/home/phil/");
    assert_eq!(expand_tilde_impl("~/pics", home), "/home/phil/pics");
}

#[test]
fn utils_helpers_use_the_fixed_home() {
    assert_eq!(utils::compress_tilde("/home/phil/pics"), "~/pics");
    assert_eq!(utils::expand_tilde("~/pics"), "/home/phil/pics");
    assert_eq!(utils::to_canon("/home/phil/pics"), "~/pics");
    assert_eq!(utils::from_canon("~/pics"), "/home/phil/pics");
}

#[test]
fn tilde_is_not_expanded_for_other_users() {
    assert_eq!(expand_tilde_impl("~bob", "/home/heart"), "~bob");
    assert_eq!(expand_tilde_impl("~bob/pics", "/home/heart"), "~bob/pics");
}

#[test]
fn str_eq_compares_text() {
    assert!(str_eq("", ""));
    assert!(str_eq("caffè", "caffè"));
    assert!(!str_eq("a", "ab"));
    assert!(!str_eq("caffè", "caffe"));
}

#[test]
fn dedup_paths_keeps_first_occurrences_in_order() {
    let dirs = vec![
        String::from("/a"),
        String::from("/b"),
        String::from("/a"),
        String::from("/c"),
        String::from("/b"),
    ];
    let deduped = dedup_paths(&dirs);
    assert_eq!(deduped, vec![String::from("/a"), String::from("/b"), String::from("/c")]);
    assert_eq!(dedup_paths(&Vec::new()), Vec::<String>::new());
}

#[test]
fn well_known_paths_are_derived_from_the_directories() {
    let wkp = WellKnownPaths::new("/home/heart", "/home/heart/.config/oaf");
    assert_eq!(wkp.home_dir().as_str(), "/home/heart");
    assert_eq!(wkp.mru_file().as_str(), "/home/heart/.config/oaf/mru.txt");
    assert_eq!(
        wkp.logging_config_file().as_str(),
        "/home/heart/.config/oaf/logging.toml"
    );
}
