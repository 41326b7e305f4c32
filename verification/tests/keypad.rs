use chip8::keypad::process_key_presses;

#[test]
fn no_host_key_presses_no_machine_key() {
    assert_eq!(process_key_presses(vec![]), [false; 16]);
}

#[test]
fn each_host_key_presses_its_machine_key() {
    let layout: [(char, usize); 16] = [
        ('1', 0x1), ('2', 0x2), ('3', 0x3), ('4', 0xC),
        ('q', 0x4), ('w', 0x5), ('e', 0x6), ('r', 0xD),
        ('a', 0x7), ('s', 0x8), ('d', 0x9), ('f', 0xE),
        ('z', 0xA), ('x', 0x0), ('c', 0xB), ('v', 0xF),
    ];
    for (host, key) in layout {
        let mut expected = [false; 16];
        expected[key] = true;
        assert_eq!(process_key_presses(vec![host as i32]), expected, "host key {}", host);
    }
}

#[test]
fn host_keys_outside_the_layout_are_ignored() {
    let escape = 27;
    let space = 32;
    let five = '5' as i32;
    let upper_q = 'Q' as i32;
    assert_eq!(process_key_presses(vec![escape, space, five, upper_q, -1, i32::MAX]), [false; 16]);
}

#[test]
fn several_host_keys_press_several_machine_keys() {
    let keys = process_key_presses(vec!['x' as i32, 27, 'v' as i32, 'x' as i32, '4' as i32]);
    let mut expected = [false; 16];
    expected[0x0] = true;
    expected[0xF] = true;
    expected[0xC] = true;
    assert_eq!(keys, expected);
}
