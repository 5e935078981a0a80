//! How control requests are answered.

use vstd::prelude::*;

verus! {

pub const XML_CONTENT_TYPE: &'static str = "text/xml; charset=\"utf-8\"";

/// A response that holds XML.
#[derive(Debug)]
pub struct XmlReply {
    pub status: u16,
    pub content_type: &'static str,
    pub body: String,
}

/// The response for an action's result, or for the fault that stands for its failure:
/// a fault comes with the status of a server error.
pub fn control_reply(outcome: Result<String, String>) -> (r: XmlReply)
    ensures
        r.content_type@ == XML_CONTENT_TYPE@,
        match outcome {
            Ok(body) => r.status == 200 && r.body@ == body@,
            Err(fault) => r.status == 500 && r.body@ == fault@,
        },
{
    match outcome {
        Ok(body) => XmlReply { status: 200, content_type: XML_CONTENT_TYPE, body },
        Err(fault) => XmlReply { status: 500, content_type: XML_CONTENT_TYPE, body: fault },
    }
}

} // verus!
