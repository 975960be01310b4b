use path_tracer::input::cli::Args;

#[test]
fn default_settings() {
    let args = Args::default();
    assert_eq!(args.samples, 50);
    assert_eq!(args.diffuse_bounces, 20);
    assert_eq!(args.height, 1080);
    assert_eq!(args.width, 1920);
    assert_eq!(args, Args { samples: 50, diffuse_bounces: 20, height: 1080, width: 1920 });
}
