use trl::opt::Opt;
use trl::sig::{ReadSig, Sig, WriteSig};

#[test]
fn opt_is_ok_tells_the_variants_apart() {
    let yes: Opt<u8, &str> = Opt::Yes(3);
    let no: Opt<u8, &str> = Opt::No("nothing");
    assert!(yes.is_ok());
    assert!(!no.is_ok());
}

#[test]
fn opt_ok_or_falls_back() {
    let yes: Opt<u8> = Opt::Yes(3);
    let no: Opt<u8> = Opt::No(());
    assert_eq!(yes.ok_or(9), 3);
    assert_eq!(no.ok_or(9), 9);
}

#[test]
fn sig_holds_what_it_is_given() {
    let mut sig = Sig::new(1u32);
    assert_eq!(sig.get(), 1);
    sig.set(5);
    assert_eq!(sig.get(), 5);
    sig.set_width(|val| val * 2 + 1);
    assert_eq!(sig.get(), 11);
}
