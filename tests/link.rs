use flagfall::challenge::{ChallengeColour, GameType, VsComputer, VsHuman};
use flagfall::challenge::{parse_time_control, ChallengeSchema};
use flagfall::chess::Color;
use flagfall::request::{command_words, Request, RequestConversionError, LED, MAGNET, SENSOR};
use flagfall::text::{best_move_of, side_from_name, text_starts_with};

fn words(list: &[&str]) -> Vec<String> {
    list.iter().map(|w| w.to_string()).collect()
}

fn bits(list: &[String]) -> Vec<Option<u32>> {
    list.iter().map(|w| w.parse::<f32>().ok().map(f32::to_bits)).collect()
}

fn parse(line: &str) -> Result<Request, RequestConversionError> {
    let w = command_words(line);
    let b = bits(&w);
    Request::try_from_words(&w, &b)
}

#[test]
fn sensor_request() {
    assert_eq!(parse("WRITE SENSOR\n").unwrap(), Request::Write(vec![SENSOR]));
}

#[test]
fn words_are_split_on_ascii_whitespace() {
    assert_eq!(command_words("  WRITE\tLED  1\r\n"), words(&["WRITE", "LED", "1"]));
    assert!(command_words(" \t\n").is_empty());
}

#[test]
fn engine_best_move_line() {
    assert_eq!(best_move_of("bestmove e2e4 ponder e7e5\n"), Some("e2e4".to_string()));
    assert_eq!(best_move_of("bestmove\tg1f3"), Some("g1f3".to_string()));
    assert_eq!(best_move_of("info depth 12 pv e2e4"), None);
    assert_eq!(best_move_of("bestmove"), None);
    assert!(text_starts_with("bestmove x", "best"));
    assert!(!text_starts_with("be", "best"));
}

#[test]
fn side_names() {
    assert_eq!(side_from_name("white"), Some(Color::White));
    assert_eq!(side_from_name("black"), Some(Color::Black));
    assert_eq!(side_from_name("red"), None);
}

#[test]
fn time_controls() {
    assert_eq!(parse_time_control("5+2"), Some((300, 2)));
    assert_eq!(parse_time_control("15+10"), Some((900, 10)));
    assert_eq!(parse_time_control("3"), Some((180, 3)));
    assert_eq!(parse_time_control("1+2+3"), Some((60, 3)));
    assert_eq!(parse_time_control("x+2"), None);
    assert_eq!(parse_time_control("5+"), None);
    assert_eq!(parse_time_control("71582789+0"), None);
}

#[test]
fn challenge_from_answers() {
    let c = ChallengeSchema::from_answers(true, "5+2", "y", "black").unwrap();
    assert!(c.rated);
    assert_eq!((c.clock_limit, c.clock_increment), (300, 2));
    assert_eq!(c.color, ChallengeColour::Black);
    assert_eq!(c.variant, "standard");
    assert_eq!(c.fen, None);
    assert!(c.keep_alive_stream);
    let c = ChallengeSchema::from_answers(false, "", "", "random").unwrap();
    assert!(!c.rated);
    assert_eq!((c.clock_limit, c.clock_increment), (900, 10));
    assert_eq!(ChallengeSchema::from_answers(true, "5+2", "maybe", "white"), None);
    assert_eq!(ChallengeSchema::from_answers(true, "5-2", "n", "white"), None);
    assert_eq!(ChallengeSchema::from_answers(false, "", "", "green"), None);
}

#[test]
fn request_errors() {
    assert!(matches!(parse(""), Err(RequestConversionError::EmptyOpSequence(_))));
    assert!(matches!(parse("READ SENSOR"), Err(RequestConversionError::UndefinedOpSequence(_))));
    assert!(matches!(parse("WRITE"), Err(RequestConversionError::EmptyOpSequence(_))));
    assert!(matches!(parse("WRITE BLINK"), Err(RequestConversionError::UndefinedOpSequence(_))));
    assert!(matches!(parse("WRITE MAGNET 1 x true"), Err(RequestConversionError::MalformedOpSequence(_))));
    assert!(matches!(parse("WRITE MAGNET 1 2 yes"), Err(RequestConversionError::MalformedOpSequence(_))));
}

#[test]
fn magnet_request_bytes() {
    let mut expected = vec![MAGNET];
    expected.extend_from_slice(&1.5f32.to_le_bytes());
    expected.extend_from_slice(&2.0f32.to_le_bytes());
    expected.push(1);
    expected.extend_from_slice(&0.5f32.to_le_bytes());
    expected.extend_from_slice(&9.0f32.to_le_bytes());
    expected.push(0);
    assert_eq!(parse("WRITE MAGNET 1.5 2 true 0.5 9 false 3").unwrap(), Request::Write(expected));
}

#[test]
fn led_request_bytes() {
    assert_eq!(
        parse("WRITE LED 16711680 abc 255 +4251856").unwrap(),
        Request::Write(vec![LED, 0xff, 0, 0, 0, 0, 0xff, 0x40, 0xe0, 0xd0])
    );
}

#[test]
fn opcode_names() {
    assert_eq!(Request::_try_parse_opcode("SENSOR"), Ok(SENSOR));
    assert_eq!(Request::_try_parse_opcode("MAGNET"), Ok(MAGNET));
    assert_eq!(Request::_try_parse_opcode("LED"), Ok(LED));
    assert!(Request::_try_parse_opcode("ACK").is_ok());
    assert!(Request::_try_parse_opcode("QUIT").is_ok());
    assert_eq!(Request::_try_parse_opcode("led"), Err(()));
}

#[test]
fn arguments_need_a_lone_opcode() {
    let mut buf = vec![LED, 0];
    let w = words(&["1"]);
    assert_eq!(Request::_try_parse_arguments_into(&mut buf, &w, &bits(&w)), Err(()));
    assert_eq!(buf, vec![LED, 0]);
    let mut buf = vec![SENSOR];
    assert_eq!(Request::_try_parse_arguments_into(&mut buf, &w, &bits(&w)), Ok(0));
    let mut buf = vec![LED];
    assert_eq!(Request::_try_parse_arguments_into(&mut buf, &w, &bits(&w)), Ok(3));
    assert_eq!(buf, vec![LED, 0, 0, 1]);
}

#[test]
fn magnet_error_keeps_earlier_waypoints() {
    let mut buf = vec![MAGNET];
    let w = words(&["1", "1", "true", "2", "2", "maybe"]);
    assert_eq!(Request::_try_parse_arguments_into(&mut buf, &w, &bits(&w)), Err(()));
    assert_eq!(buf.len(), 10);
}

#[test]
fn challenge_colour_names() {
    assert_eq!(ChallengeColour::from_name("white"), Some(ChallengeColour::White));
    assert_eq!(ChallengeColour::from_name("black"), Some(ChallengeColour::Black));
    assert_eq!("random".parse::<ChallengeColour>(), Ok(ChallengeColour::Random));
    assert_eq!("White".parse::<ChallengeColour>(), Err(()));
}

#[test]
fn game_types() {
    assert!(VsHuman::IS_VS_HUMAN);
    assert!(!VsComputer::IS_VS_HUMAN);
}

#[test]
fn request_text() {
    assert_eq!(Request::Write(vec![3, 255, 0]).to_string(), "WRITE [3, 255, 0]");
    assert_eq!(Request::Write(vec![]).to_string(), "WRITE []");
    assert_eq!(Request::Write(vec![SENSOR]).to_string(), format!("WRITE [{}]", SENSOR));
}

#[test]
fn led_numbers_at_the_u32_limits() {
    assert_eq!(
        parse("WRITE LED 4294967295 4294967296 -1 + 00 1x").unwrap(),
        Request::Write(vec![LED, 0xff, 0xff, 0xff, 0, 0, 0])
    );
    assert_eq!(command_words("a\x0Cb\rc"), words(&["a", "b", "c"]));
}
