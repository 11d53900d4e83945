use noshare_cover::gpu::{first_render_node, pick_render_node};

#[test]
fn explicit_missing_device_is_error() {
    let node = "/nonexistent/renderD128";
    let there = std::path::Path::new(node).exists();
    assert!(pick_render_node(Some(node), there, None).is_err());
    assert_eq!(
        pick_render_node(Some(node), there, None),
        Err("no such device: /nonexistent/renderD128".to_string())
    );
}

#[test]
fn picks_lowest_render_node() {
    let names: Vec<String> = ["renderD129", "renderD128", "card0"].map(String::from).to_vec();
    assert_eq!(
        first_render_node("/tmp/dri", Some(&names)),
        Ok("/tmp/dri/renderD128".to_string())
    );
    assert_eq!(
        pick_render_node(None, false, Some(&names)),
        Ok("/dev/dri/renderD128".to_string())
    );
}

#[test]
fn an_existing_device_is_taken_as_it_is() {
    assert_eq!(
        pick_render_node(Some("/dev/dri/renderD130"), true, None),
        Ok("/dev/dri/renderD130".to_string())
    );
}

#[test]
fn no_render_node_says_why() {
    assert_eq!(
        pick_render_node(None, false, None),
        Err("no /dev/dri (GPU unavailable)".to_string())
    );
    let names: Vec<String> = ["card0", "renderD", "renderDx", "renderD99999999999"]
        .map(String::from)
        .to_vec();
    assert_eq!(
        pick_render_node(None, false, Some(&names)),
        Err("no render node found".to_string())
    );
}

#[test]
fn node_numbers_compare_as_numbers() {
    let names: Vec<String> = ["renderD200", "renderD0099", "renderD+98"].map(String::from).to_vec();
    assert_eq!(
        first_render_node("/d", Some(&names)),
        Ok("/d/renderD+98".to_string())
    );
    let ties: Vec<String> = ["renderD7", "renderD07"].map(String::from).to_vec();
    assert_eq!(first_render_node("/d", Some(&ties)), Ok("/d/renderD7".to_string()));
}
