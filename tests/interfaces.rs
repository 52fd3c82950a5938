use rustmiko::interfaces::{make_interface, Interface};

#[test]
fn fast_ethernet_two_indices() {
    let i = make_interface("FastEthernet", &[0, 7]);
    assert_eq!(i.name(), "FastEthernet0/7");
}

#[test]
fn empty_indices_give_bare_prefix() {
    let i = make_interface("gi", &[]);
    assert_eq!(i.name(), "gi");
}

#[test]
fn single_index_has_no_separator() {
    assert_eq!(make_interface("gi", &[0]).name(), "gi0");
}

#[test]
fn three_indices_with_dash_prefix() {
    assert_eq!(make_interface("ge-", &[0, 0, 0]).name(), "ge-0/0/0");
}

#[test]
fn multi_digit_and_largest_indices() {
    let i = make_interface("x", &[10, 255, 4294967295]);
    assert_eq!(i.name(), "x10/255/4294967295");
}

#[test]
fn empty_prefix_and_indices() {
    assert_eq!(make_interface("", &[]).name(), "");
    assert_eq!(make_interface("", &[1, 20]).name(), "1/20");
}

#[test]
fn interface_new_keeps_name() {
    let i = Interface::new(String::from("Vlan100"));
    assert_eq!(i.name(), "Vlan100");
}

#[test]
fn interface_name_reads_back_as_indices() {
    let indices = [3u32, 0, 48, 4294967295];
    let i = make_interface("TenGigabitEthernet", &indices);
    let rest = i.name().strip_prefix("TenGigabitEthernet").unwrap();
    let parsed: Vec<u32> = rest.split('/').map(|t| t.parse::<u32>().unwrap()).collect();
    assert_eq!(parsed, indices.to_vec());
    for piece in rest.split('/') {
        assert!(piece == "0" || !piece.starts_with('0'));
    }
}
