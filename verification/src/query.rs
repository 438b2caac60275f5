use vstd::prelude::*;

verus! {

/// Error returned when a query message cannot be built or encoded: the record
/// name is not a well-formed DNS name, or the assembled message refuses to
/// serialise.
#[derive(Clone, Copy, Debug, PartialEq, Eq, Structural)]
pub enum EncodeError {
    Invalid,
}

/// The wire encoding of a minimal DNS query with the given transaction id,
/// record name and query type, or `None` where no such encoding exists. The
/// bytes are a function of these three arguments alone.
pub uninterp spec fn query_wire(id: u16, record: Seq<char>, qtype: u16) -> Option<Seq<u8>>;

/// Build a minimal DNS query — one question of the given name and type,
/// carrying the given transaction id, flagged as a query — and encode it to
/// its wire form.
///
/// Relies on trust_dns_proto: `Name::from_ascii` to parse the record name,
/// `Message::new`/`set_id`/`add_query`/`set_message_type` and `Query::query`
/// to assemble the message, and `Message::to_vec` to encode it. Which of the
/// two steps fails is not distinguished; both depend only on the arguments.
#[verifier::external_body]
pub fn simple(id: u16, record: &str, qtype: u16) -> (r: Result<Vec<u8>, EncodeError>)
    ensures
        r is Ok <==> query_wire(id, record@, qtype) is Some,
        r is Ok ==> r.unwrap()@ == query_wire(id, record@, qtype).unwrap(),
{
    let name = match trust_dns_proto::rr::Name::from_ascii(record) {
        Ok(n) => n,
        Err(_) => return Err(EncodeError::Invalid),
    };
    let mut msg = trust_dns_proto::op::Message::new();
    msg.set_id(id)
        .add_query(trust_dns_proto::op::Query::query(
            name,
            trust_dns_proto::rr::RecordType::from(qtype),
        ))
        .set_message_type(trust_dns_proto::op::MessageType::Query);
    match msg.to_vec() {
        Ok(v) => Ok(v),
        Err(_) => Err(EncodeError::Invalid),
    }
}

} // verus!
