use unnamed::span::union_of;
use unnamed::span::union_opt;
use unnamed::Source;
use unnamed::Span;

#[test]
fn test_span_len() {
    let span1 = Span::new(0, 4);
    let span2 = Span::new(4, 6);
    let span3 = Span::new(0, 0);

    assert_eq!(span1.len(), 4);
    assert_eq!(span2.len(), 2);
    assert_eq!(span3.len(), 0);
}

#[test]
fn union_is_commutative_and_associative() {
    let spans = [
        Span::new(0, 0),
        Span::new(2, 5),
        Span::new(4, 9),
        Span::new(7, 7),
        Span::new(1, 30),
    ];
    for a in spans {
        assert_eq!(a + a, a);
        for b in spans {
            assert_eq!(a + b, b + a);
            for c in spans {
                assert_eq!((a + b) + c, a + (b + c));
            }
        }
    }
    assert_eq!(Span::new(2, 5) + Span::new(4, 9), Span::new(2, 9));
    assert_eq!(Span::new(2, 5) + Span::new(7, 9), Span::new(2, 9));
}

#[test]
fn union_in_place() {
    let mut span = Span::new(4, 6);
    span += Span::new(1, 5);
    assert_eq!(span, Span::new(1, 6));
    span += Span::new(2, 9);
    assert_eq!(span, Span::new(1, 9));
}

#[test]
fn extension_and_shrinking() {
    assert_eq!(Span::new(3, 4) + 5, Span::new(3, 9));
    assert_eq!(Span::new(3, 4) + 0, Span::new(3, 4));
    assert_eq!(Span::new(3, 9).shrink(2), Span::new(5, 7));
    assert_eq!(Span::new(3, 9).shrink(0), Span::new(3, 9));
    assert!(Span::new(5, 5).is_empty());
    assert!(!Span::new(5, 6).is_empty());
    assert_eq!(Span::dummy(), Span::new(0, 0));
    assert_eq!(Span::default(), Span::new(0, 0));
}

#[test]
fn unions_of_many() {
    let fallback = Span::new(50, 60);
    assert_eq!(union_of(&Vec::new(), fallback), fallback);
    assert_eq!(union_of(&vec![Span::new(3, 4)], fallback), Span::new(3, 4));
    assert_eq!(
        union_of(&vec![Span::new(3, 4), Span::new(1, 2), Span::new(8, 9)], fallback),
        Span::new(1, 9)
    );
    assert_eq!(union_opt(Span::new(3, 4), None), Span::new(3, 4));
    assert_eq!(union_opt(Span::new(3, 4), Some(Span::new(0, 1))), Span::new(0, 4));
}

#[test]
fn characters_under_a_span() {
    let source = Source::new("héllö wörld", "test_file");
    assert_eq!(Span::new(0, 7).chars_len(source), 5);
    assert_eq!(Span::new(1, 3).chars_len(source), 1);
    assert_eq!(Span::new(3, 3).chars_len(source), 0);
    assert_eq!(Span::new(0, 14).chars_len(source), 11);
}

#[test]
fn spans_and_positions_as_text() {
    assert_eq!(Span::new(3, 7).to_string(), "3..7");
    assert_eq!(Span::new(0, 0).to_string(), "0..0");
    assert_eq!(Span::new(10, 1234567890).to_string(), "10..1234567890");
    assert_eq!(Span::new(usize::MAX, 99).to_string(), format!("{}..99", usize::MAX));
    assert_eq!(unnamed::Position::new(12, 5, 100, 120).to_string(), "12:5");
    assert_eq!(unnamed::Position::new(1, 1, 0, 0).to_string(), "1:1");
    assert_eq!(unnamed::Position::new(100, 2000, 0, 0).to_string(), "100:2000");
}
