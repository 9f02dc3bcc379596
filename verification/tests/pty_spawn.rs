use hokaido::pty_spawn::{enter_raw_mode, shell, Attributes, Names};

fn linux() -> Names {
    Names {
        echo: 0o10,
        icanon: 0o2,
        iexten: 0o100000,
        isig: 0o1,
        brkint: 0o2,
        icrnl: 0o400,
        inpck: 0o20,
        istrip: 0o40,
        ixon: 0o2000,
        csize: 0o60,
        parenb: 0o400,
        cs8: 0o60,
        opost: 0o1,
        vmin: 6,
        vtime: 5,
    }
}

#[test]
fn raw_mode_of_a_usual_terminal() {
    let mut c_cc = vec![0u8; 32];
    c_cc[0] = 3;
    c_cc[5] = 9;
    c_cc[6] = 4;
    let cooked = Attributes { c_iflag: 0o2402, c_oflag: 0o5, c_cflag: 0o2277, c_lflag: 0o105073, c_cc };
    let raw = enter_raw_mode(&cooked, &linux());
    assert_eq!(raw.c_iflag, 0);
    assert_eq!(raw.c_oflag, 0o4);
    assert_eq!(raw.c_cflag, 0o2277);
    assert_eq!(raw.c_lflag, 0o5060);
    let mut expected = vec![0u8; 32];
    expected[0] = 3;
    expected[5] = 0;
    expected[6] = 1;
    assert_eq!(raw.c_cc, expected);
    // the attributes that were handed in are as they were
    assert_eq!(cooked.c_lflag, 0o105073);
    assert_eq!(cooked.c_cc[6], 4);
}

#[test]
fn raw_mode_clears_parity_and_sets_eight_bits() {
    let cooked = Attributes { c_iflag: 0, c_oflag: 0, c_cflag: 0o440, c_lflag: 0, c_cc: vec![0u8; 8] };
    let raw = enter_raw_mode(&cooked, &linux());
    assert_eq!(raw.c_cflag, 0o60);
}

#[test]
fn raw_mode_of_raw_mode_is_raw_mode() {
    let cooked = Attributes { c_iflag: 0o77777, c_oflag: 0o77, c_cflag: 0o7777, c_lflag: 0o177777, c_cc: vec![7u8; 32] };
    let raw = enter_raw_mode(&cooked, &linux());
    let again = enter_raw_mode(&raw, &linux());
    assert_eq!(again, raw);
}

#[test]
fn when_both_slots_are_one_the_timeout_wins() {
    let mut names = linux();
    names.vmin = 2;
    names.vtime = 2;
    let cooked = Attributes { c_iflag: 0, c_oflag: 0, c_cflag: 0, c_lflag: 0, c_cc: vec![9u8; 4] };
    let raw = enter_raw_mode(&cooked, &names);
    assert_eq!(raw.c_cc, vec![9, 9, 0, 9]);
}

#[test]
fn shell_of_the_environment_or_bash() {
    assert_eq!(shell(Some("/bin/zsh".to_string())), "/bin/zsh");
    assert_eq!(shell(Some(String::new())), "");
    assert_eq!(shell(None), "bash");
}
