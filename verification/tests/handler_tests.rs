use git_shell_info::handlers::{color_handler, rgb_handler};

#[test]
fn valid_color() {
    assert_eq!(color_handler(vec!["red"]).unwrap(), "\x1b[0;31m");

    assert_eq!(color_handler(vec!["bold_cyan"]).unwrap(), "\x1b[1;36m");
}

#[test]
fn invalid_color() {
    assert_eq!(
        color_handler(vec!["not a color"]).err(),
        Some("color: must be a valid color name".to_string())
    );
}

#[test]
fn incorrect_parameters_color() {
    assert_eq!(
        color_handler(vec!["red", "blue"]).err(),
        Some("color: must have one arguments".to_string())
    );

    assert_eq!(
        color_handler(vec![]).err(),
        Some("color: must have one arguments".to_string())
    );
}

#[test]
fn valid_rgb() {
    assert_eq!(
        rgb_handler(vec!["255", "0", "222"]).unwrap(),
        "\x1b[38;2;255;0;222m"
    );
}

#[test]
fn invalid_rgb() {
    assert_eq!(
        rgb_handler(vec!["100000", "0", "222"]).err(),
        Some("rbg: arguments must be numbers between 0 and 255".to_string())
    );
}

#[test]
fn incorrect_parameters_rgb() {
    assert_eq!(
        rgb_handler(vec!["222"]).err(),
        Some("rgb: must have three arguments".to_string())
    );

    assert_eq!(
        rgb_handler(vec![]).err(),
        Some("rgb: must have three arguments".to_string())
    );
}
