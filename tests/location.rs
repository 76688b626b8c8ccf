use lexical_analysis::LocationInterface;
use lexical_analysis::{Location, CodePoint, CodePointInterface, Queue};

#[test]
fn location_text_round_trip() {
    let loc = Location { line: 12, column: 345, total: 999 };
    assert_eq!(loc.to_string(), "L:12,C:345");
    let back = Location::from_str(&loc.to_string()).unwrap();
    assert_eq!(back.line, 12);
    assert_eq!(back.column, 345);
    assert_eq!(back.total, 357);
    let max = Location { line: usize::MAX, column: 0, total: 1 };
    let back = Location::from_str(&max.to_string()).unwrap();
    assert_eq!(back.line, usize::MAX);
    assert_eq!(back.total, usize::MAX);
}

#[test]
fn location_parse_errors() {
    assert!(Location::from_str("L:x,C:1").is_err());
    assert!(Location::from_str("L:1,C:").is_err());
    assert!(Location::from_str("L:1").is_err());
    assert_ne!(Location::from_str("L:x,C:1"), Location::from_str("L:1,C:x"));
    assert_eq!(Location::from_str("L:+7,C:08").map(|l| (l.line, l.column)), Ok((7, 8)));
}

#[test]
fn location_increments_saturate() {
    let mut loc = Location::new();
    assert_eq!(loc, Location::default());
    loc.increment_line();
    loc.increment_column_by(4);
    loc.increment_total_by(usize::MAX);
    assert_eq!(loc, Location { line: 2, column: 5, total: usize::MAX });
    loc.reset_column();
    assert_eq!(loc.column, 1);
}

#[test]
fn classification_priority() {
    assert_eq!(CodePoint::from_unit('\n'), CodePoint::Newline('\n'));
    assert_eq!(CodePoint::from_unit('\r'), CodePoint::Newline('\r'));
    assert_eq!(CodePoint::from_unit('\t'), CodePoint::Whitespace('\t'));
    assert_eq!(CodePoint::from_unit('<'), CodePoint::LESS_THAN_SIGN);
    assert_eq!(CodePoint::from_unit('\0'), CodePoint::NULL);
    assert_eq!(CodePoint::from_unit('z'), CodePoint::Unit('z'));
    assert_eq!(CodePoint::from_unit(0x0Cu8), CodePoint::Newline(0x0C));
    assert_eq!(CodePoint::from(b'|'), CodePoint::VERTICAL_LINE);
    assert_eq!("L:3,C:4".parse::<Location>().map(|l| l.total), Ok(7));
}

#[test]
fn unit_predicates() {
    assert!('\u{D7FF}'.is_scalar_value());
    assert!(!CodePointInterface::is_surrogate(&'\u{E000}'));
    assert!(CodePointInterface::is_noncharacter(&'\u{FDD0}'));
    assert!(CodePointInterface::is_noncharacter(&'\u{10FFFF}'));
    assert!(!CodePointInterface::is_noncharacter(&'\u{FFFD}'));
    assert!(CodePointInterface::is_ident_start(&'é'));
    assert!(!CodePointInterface::is_ident_start(&'1'));
    assert!(CodePointInterface::is_ident(&'-'));
    assert!(!CodePointInterface::is_whitespace(&'\u{0B}'));
    assert_eq!(CodePointInterface::as_byte(&'é'), 0xE9);
    assert!(CodePoint::<char>::HYPHEN_MINUS.is_ident());
    assert!(CodePoint::<char>::EQUALS_SIGN.is('='));
    assert_eq!(CodePoint::<u8>::TILDE.unit(), '~');
    assert!(!CodePoint::<char>::EOF.is_valid());
    assert_eq!(CodePoint::<char>::NULL.maybe_unit(), None);
}

#[test]
fn queue_peeks_never_skip_items() {
    let mut q = Queue::new(vec![1u32, 2, 3]);
    assert_eq!(q.peek_next(), Some(1));
    assert_eq!(q.peek_at(2), Some(3));
    assert_eq!(q.next(), Some(1));
    assert_eq!(q.peek_next(), Some(2));
    assert_eq!(q.dequeue(), Some(2));
    q.reconsume(Some(2));
    assert_eq!(q.next(), Some(2));
    assert_eq!(q.dequeue(), Some(3));
    assert_eq!(q.dequeue(), None);
    assert_eq!(q.next(), None);
}

#[test]
fn location_interface_moves_the_location() {
    let mut loc = Location::new();
    LocationInterface::increment_line(&mut loc);
    LocationInterface::increment_column_by(&mut loc, 3);
    LocationInterface::increment_total(&mut loc);
    assert_eq!(loc, Location { line: 2, column: 4, total: 2 });
    LocationInterface::define_location(&mut loc, Location { line: 9, column: 9, total: 9 });
    LocationInterface::reset_column(&mut loc);
    assert_eq!(loc, Location { line: 9, column: 1, total: 9 });
}

#[test]
fn enqueue_buffers_without_consuming() {
    let mut q = Queue::new(vec!['a', 'b']);
    q.enqueue();
    q.enqueue();
    q.enqueue();
    assert_eq!(q.dequeue(), Some('a'));
    assert_eq!(q.dequeue(), Some('b'));
    assert_eq!(q.dequeue(), None);
}
