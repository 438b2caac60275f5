use nailgun::{Family, GenType, LogStructure, ParseError, Protocol};

#[test]
fn parses_log_structure_keywords() {
    assert_eq!(LogStructure::from_str("json"), Ok(LogStructure::Json));
    assert_eq!(LogStructure::from_str("pretty"), Ok(LogStructure::Pretty));
    assert_eq!(LogStructure::from_str("debug"), Ok(LogStructure::Debug));
    assert_eq!(LogStructure::from_str("JSON"), Ok(LogStructure::Json));
    assert_eq!(LogStructure::from_str("PrEtTy"), Ok(LogStructure::Pretty));
    assert_eq!(
        LogStructure::from_str("compact"),
        Err(ParseError::UnknownKeyword)
    );
    assert_eq!(LogStructure::from_str(""), Err(ParseError::UnknownKeyword));
}

#[test]
fn parses_protocol_keywords() {
    assert_eq!(Protocol::from_str("udp"), Ok(Protocol::Udp));
    assert_eq!(Protocol::from_str("tcp"), Ok(Protocol::Tcp));
    assert_eq!(Protocol::from_str("UDP"), Ok(Protocol::Udp));
    assert_eq!(Protocol::from_str("TcP"), Ok(Protocol::Tcp));
    assert_eq!(Protocol::from_str("doh"), Err(ParseError::UnknownKeyword));
    assert_eq!(Protocol::from_str("udp "), Err(ParseError::UnknownKeyword));
}

#[test]
fn parses_family_keywords() {
    assert_eq!(Family::from_str("inet"), Ok(Family::INET));
    assert_eq!(Family::from_str("inet6"), Ok(Family::INET6));
    assert_eq!(Family::from_str("INET6"), Ok(Family::INET6));
    assert_eq!(Family::from_str("inet4"), Err(ParseError::UnknownKeyword));
}

#[test]
fn parses_generator_keywords() {
    assert_eq!(GenType::from_str("static"), Ok(GenType::Static));
    assert_eq!(GenType::from_str("randompkt"), Ok(GenType::RandomPkt));
    assert_eq!(GenType::from_str("randomqname"), Ok(GenType::RandomQName));
    assert_eq!(GenType::from_str("randomlabel"), Ok(GenType::RandomLabel));
    assert_eq!(GenType::from_str("RandomLabel"), Ok(GenType::RandomLabel));
    assert_eq!(GenType::from_str("file"), Err(ParseError::UnknownKeyword));
}
