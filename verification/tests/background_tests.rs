use sway_tools::background::{after_invoke, Opt, Request};
use sway_tools::error::PipelineError;
use sway_tools::scanner::MAX_DEPTH;

fn texts(names: &[&str]) -> Vec<String> {
    names.iter().map(|s| s.to_string()).collect()
}

fn opt(paths: &[&str], startup: bool) -> Opt {
    Opt::new("/home/me/wallpaper".to_string(), texts(paths), startup)
}

#[test]
fn opt_keeps_what_it_was_given() {
    let o = opt(&["/a/one.png", "/a/two.png"], true);
    assert_eq!(o.dir(), "/home/me/wallpaper");
    assert_eq!(o.path(), &texts(&["/a/one.png", "/a/two.png"]));
    assert!(o.startup());
    assert!(!opt(&[], false).startup());
}

#[test]
fn start_prepares_the_given_images() {
    assert_eq!(
        opt(&["/a/one.png", "/a/two.png"], false).start(),
        Request::Prepare {
            dir: "/home/me/wallpaper".to_string(),
            sources: texts(&["/a/one.png", "/a/two.png"]),
        }
    );
}

#[test]
fn start_scans_when_no_image_is_given() {
    assert_eq!(
        opt(&[], false).start(),
        Request::Scan { dir: "/home/me/wallpaper".to_string(), max_depth: MAX_DEPTH }
    );
}

#[test]
fn apply_prints_at_startup_and_invokes_otherwise() {
    assert_eq!(
        opt(&[], true).apply("/out/photo.jpg"),
        Request::Print("/out/photo.jpg".to_string())
    );
    assert_eq!(
        opt(&[], false).apply("/out/photo.jpg"),
        Request::Invoke("output \"*\" background /out/photo.jpg fill".to_string())
    );
}

#[test]
fn after_prepare_without_outputs_falls_back_to_the_scan() {
    assert_eq!(
        opt(&[], true).after_prepare(&Vec::new()),
        Ok(Request::Scan { dir: "/home/me/wallpaper".to_string(), max_depth: 2 })
    );
}

#[test]
fn after_prepare_with_one_output_uses_it() {
    let o = opt(&["/a/one.png"], false);
    for _ in 0..50 {
        assert_eq!(
            o.after_prepare(&texts(&["/out/one.jpg"])),
            Ok(Request::Invoke("output \"*\" background /out/one.jpg fill".to_string()))
        );
    }
}

#[test]
fn after_prepare_with_outputs_never_scans() {
    let o = opt(&["/a/one.png", "/a/two.png", "/a/three.png"], true);
    let outputs = texts(&["/out/one.jpg", "/out/two.jpg", "/out/three.jpg"]);
    let mut seen = Vec::new();
    for _ in 0..600 {
        match o.after_prepare(&outputs) {
            Ok(Request::Print(p)) => {
                assert!(outputs.contains(&p));
                if !seen.contains(&p) {
                    seen.push(p);
                }
            }
            other => panic!("unexpected request {:?}", other),
        }
    }
    assert_eq!(seen.len(), 3);
}

#[test]
fn after_scan_without_images_is_an_empty_pool() {
    assert_eq!(opt(&[], false).after_scan(&Vec::new()), Err(PipelineError::EmptyPool));
    assert_eq!(opt(&[], true).after_scan(&Vec::new()), Err(PipelineError::EmptyPool));
}

#[test]
fn after_scan_chooses_among_the_images() {
    let o = opt(&[], false);
    assert_eq!(
        o.after_scan(&texts(&["/w/a.png"])),
        Ok(Request::Invoke("output \"*\" background /w/a.png fill".to_string()))
    );
    let images = texts(&["/w/a.png", "/w/b.png"]);
    for _ in 0..50 {
        match o.after_scan(&images) {
            Ok(Request::Invoke(c)) => assert!(
                c == "output \"*\" background /w/a.png fill"
                    || c == "output \"*\" background /w/b.png fill"
            ),
            other => panic!("unexpected request {:?}", other),
        }
    }
}

#[test]
fn after_invoke_passes_success_and_carries_the_diagnostic() {
    assert_eq!(after_invoke(true, ""), Ok(()));
    assert_eq!(after_invoke(true, "warning: ignored"), Ok(()));
    assert_eq!(
        after_invoke(false, "Error: no such output\n"),
        Err(PipelineError::ExternalChannel("Error: no such output\n".to_string()))
    );
}

#[test]
fn every_error_has_a_message() {
    assert_eq!(PipelineError::InputShape.message(), "Source path has no file stem.");
    assert_eq!(PipelineError::Codec("bad header".to_string()).message(), "bad header");
    assert_eq!(PipelineError::Io("disk full".to_string()).message(), "disk full");
    assert_eq!(PipelineError::EmptyPool.message(), "No background images in folder.");
    assert_eq!(
        PipelineError::ExternalChannel("no such output".to_string()).message(),
        "Sway error: no such output"
    );
}

#[test]
fn duplicate_yields_an_equal_error() {
    for e in [
        PipelineError::InputShape,
        PipelineError::Codec("c".to_string()),
        PipelineError::Io("i".to_string()),
        PipelineError::EmptyPool,
        PipelineError::ExternalChannel("x".to_string()),
    ] {
        assert_eq!(e.duplicate(), e);
    }
}

#[test]
fn a_failed_preparation_ends_the_run_without_a_scan() {
    let o = opt(&["/a/one.png"], false);
    for e in [
        PipelineError::InputShape,
        PipelineError::Codec("bad header".to_string()),
        PipelineError::Io("disk full".to_string()),
    ] {
        assert_eq!(o.after_prepare_result(Err(e.clone())), Err(e));
    }
}

#[test]
fn a_preparation_that_succeeded_goes_on_as_before() {
    let o = opt(&["/a/one.png"], true);
    assert_eq!(
        o.after_prepare_result(Ok(texts(&["/out/one.jpg"]))),
        Ok(Request::Print("/out/one.jpg".to_string()))
    );
    assert_eq!(
        o.after_prepare_result(Ok(Vec::new())),
        Ok(Request::Scan { dir: "/home/me/wallpaper".to_string(), max_depth: MAX_DEPTH })
    );
}

#[test]
fn a_failed_scan_ends_the_run_with_its_error() {
    let o = opt(&[], false);
    let e = PipelineError::Io("cannot read /home/me/wallpaper".to_string());
    assert_eq!(o.after_scan_result(Err(e.clone())), Err(e));
}

#[test]
fn a_scan_that_succeeded_goes_on_as_before() {
    let o = opt(&[], true);
    assert_eq!(
        o.after_scan_result(Ok(texts(&["/w/a.png"]))),
        Ok(Request::Print("/w/a.png".to_string()))
    );
    assert_eq!(o.after_scan_result(Ok(Vec::new())), Err(PipelineError::EmptyPool));
}
