use heapless::spsc::Queue;
use morse_utils::Morse::{Dash, Dot, LetterSpace, TinySpace, WordSpace};
use morse_utils::{
    construct_key, definitive_consume_morses_produce_letter, private_consume_morses_produce_letter,
    serialize_morse, validate_morse_letter_tiny_spaces, Morse, MorseErr, MorseQueue,
};

#[test]
fn test_lookup() {
    let arr = [Dash, Dot, Dot, Dot];
    let key = construct_key().unwrap();
    let ser = serialize_morse(&arr).unwrap();
    assert_eq!(Some(&'b'), key.get(&ser));
}

#[test]
fn test_consume() {

    let key = construct_key().unwrap();

    let mut morse_queue: MorseQueue = Queue::new();

    morse_queue.enqueue(Dot).unwrap();
    morse_queue.enqueue(TinySpace).unwrap();
    morse_queue.enqueue(Dot).unwrap();
    morse_queue.enqueue(TinySpace).unwrap();

    let q = Queue::new();

    let (char, q) = private_consume_morses_produce_letter(&mut morse_queue, q, &key).unwrap();
    assert_eq!(None, char);

    morse_queue.enqueue(Dot).unwrap();

    let (char, q) = private_consume_morses_produce_letter(&mut morse_queue, q, &key).unwrap();
    assert_eq!(None, char);

    morse_queue.enqueue(LetterSpace).unwrap();

    let (char, q) = private_consume_morses_produce_letter(&mut morse_queue, q, &key).unwrap();
    assert_eq!(Some('s'), char);
    assert!(q.is_empty());
}

#[test]
fn test_consume2() {

    let key = construct_key().unwrap();

    let mut morse_queue: MorseQueue = Queue::new();

    morse_queue.enqueue(Dot).unwrap();
    morse_queue.enqueue(TinySpace).unwrap();
    morse_queue.enqueue(Dot).unwrap();
    morse_queue.enqueue(TinySpace).unwrap();
    morse_queue.enqueue(Dot).unwrap();
    morse_queue.enqueue(LetterSpace).unwrap();
    morse_queue.enqueue(LetterSpace).unwrap();
    morse_queue.enqueue(Dot).unwrap();
    morse_queue.enqueue(TinySpace).unwrap();
    morse_queue.enqueue(Dot).unwrap();
    morse_queue.enqueue(TinySpace).unwrap();
    morse_queue.enqueue(Dot).unwrap();
    morse_queue.enqueue(LetterSpace).unwrap();
    morse_queue.enqueue(WordSpace).unwrap();
    morse_queue.enqueue(LetterSpace).unwrap();
    morse_queue.enqueue(WordSpace).unwrap();
    morse_queue.enqueue(LetterSpace).unwrap();
    morse_queue.enqueue(Dash).unwrap();
    morse_queue.enqueue(TinySpace).unwrap();
    morse_queue.enqueue(Dot).unwrap();
    morse_queue.enqueue(TinySpace).unwrap();
    morse_queue.enqueue(Dot).unwrap();
    morse_queue.enqueue(TinySpace).unwrap();
    morse_queue.enqueue(Dot).unwrap();
    morse_queue.enqueue(LetterSpace).unwrap();
    morse_queue.enqueue(Dot).unwrap();
    morse_queue.enqueue(LetterSpace).unwrap();
    morse_queue.enqueue(LetterSpace).unwrap();

    let mut cvec: Vec<char> = Vec::new();
    let mut q = Queue::new();

    loop {
        let (char, newqueue) =
            definitive_consume_morses_produce_letter(&mut morse_queue, q, &key).unwrap();
        q = newqueue;
        println!("{:?}", char);
        match char {
            Some(c) => cvec.push(c),
            None => break,
        }
    }

    assert_eq!(['s', 's', ' ', ' ', 'b', 'e'], cvec[..])
}

#[test]
fn missing_tiny_space_is_refused() {
    let key = construct_key().unwrap();
    let mut morse_queue: MorseQueue = Queue::new();
    morse_queue.enqueue(Dot).unwrap();
    morse_queue.enqueue(Dot).unwrap();
    morse_queue.enqueue(LetterSpace).unwrap();
    let q = Queue::new();
    assert!(matches!(
        private_consume_morses_produce_letter(&mut morse_queue, q, &key),
        Err(MorseErr::InvalidLetterTinySpacing)
    ));
}

#[test]
fn doubled_tiny_space_is_refused() {
    let key = construct_key().unwrap();
    let mut morse_queue: MorseQueue = Queue::new();
    morse_queue.enqueue(Dot).unwrap();
    morse_queue.enqueue(TinySpace).unwrap();
    morse_queue.enqueue(TinySpace).unwrap();
    morse_queue.enqueue(Dot).unwrap();
    morse_queue.enqueue(LetterSpace).unwrap();
    let q = Queue::new();
    assert!(matches!(
        private_consume_morses_produce_letter(&mut morse_queue, q, &key),
        Err(MorseErr::InvalidLetterTinySpacing)
    ));
}

#[test]
fn gaps_between_marks_must_be_single() {
    // exactly one tiny gap between consecutive marks
    assert_eq!(
        Ok(vec![Dot, Dash]),
        validate_morse_letter_tiny_spaces(&[Dot, TinySpace, Dash])
    );
    // a doubled gap between two marks is a spacing violation
    assert_eq!(
        Err(MorseErr::InvalidLetterTinySpacing),
        validate_morse_letter_tiny_spaces(&[Dot, TinySpace, TinySpace, Dot])
    );
    // a missing gap between two marks is a spacing violation
    assert_eq!(
        Err(MorseErr::InvalidLetterTinySpacing),
        validate_morse_letter_tiny_spaces(&[Dot, Dot])
    );
    // gaps before the first mark and after the last are tolerated
    assert_eq!(
        Ok(vec![Dot]),
        validate_morse_letter_tiny_spaces(&[TinySpace, Dot, TinySpace])
    );
}

#[test]
fn unknown_letter_is_named() {
    let key = construct_key().unwrap();
    let mut morse_queue: MorseQueue = Queue::new();
    for _ in 0..3 {
        morse_queue.enqueue(Dash).unwrap();
        morse_queue.enqueue(TinySpace).unwrap();
    }
    morse_queue.enqueue(Dash).unwrap();
    morse_queue.enqueue(LetterSpace).unwrap();
    let q = Queue::new();
    // four dashes serialize to a key the table does not hold
    assert!(matches!(
        private_consume_morses_produce_letter(&mut morse_queue, q, &key),
        Err(MorseErr::UnknownChar((4, 15)))
    ));
}

#[test]
fn serialization_errors() {
    assert_eq!(Err(MorseErr::EmptyInput), serialize_morse(&[]));
    assert_eq!(
        Err(MorseErr::MorseInputCrossesLetterBound(WordSpace)),
        serialize_morse(&[Dot, WordSpace, Dot])
    );
    let nine = [Dot; 9];
    assert_eq!(Err(MorseErr::InputTooLarge), serialize_morse(&nine));
    assert_eq!(Ok((2, 2)), serialize_morse(&[Dot, Dash]));
}

#[test]
fn every_letter_round_trips() {
    let key = construct_key().unwrap();
    let letters = [
        ('a', ".-"), ('b', "-..."), ('c', "-.-."), ('d', "-.."), ('e', "."), ('f', "..-."),
        ('g', "--."), ('h', "...."), ('i', ".."), ('j', ".---"), ('k', "-.-"), ('l', ".-.."),
        ('m', "--"), ('n', "-."), ('o', "---"), ('p', ".--."), ('q', "--.-"), ('r', ".-."),
        ('s', "..."), ('t', "-"), ('u', "..-"), ('v', "...-"), ('w', ".--"), ('x', "-..-"),
        ('y', "-.--"), ('z', "--.."),
    ];
    for (l, code) in letters.iter() {
        let marks: Vec<morse_utils::Morse> = code
            .chars()
            .map(|c| if c == '-' { Morse::Dash } else { Morse::Dot })
            .collect();
        let ser = serialize_morse(&marks).unwrap();
        assert_eq!(Some(l), key.get(&ser));
    }
}
