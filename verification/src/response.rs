//! HTTP responses as plain data.
//!
//! The library never speaks HTTP itself: it hands the surrounding program a
//! [`Response`] — a status code, headers in order, and a body — and the
//! program forwards it to its HTTP runtime unchanged.

use vstd::prelude::*;

verus! {

/// What a response holds, as mathematical values.
#[verifier::ext_equal]
pub struct ResponseModel {
    pub status: u16,
    pub headers: Seq<(Seq<char>, Seq<char>)>,
    pub body: Seq<char>,
}

/// An HTTP response as plain executable data.
pub struct Response {
    pub status: u16,
    pub headers: Vec<(String, String)>,
    pub body: String,
}

impl View for Response {
    type V = ResponseModel;

    open spec fn view(&self) -> ResponseModel {
        ResponseModel {
            status: self.status,
            headers: self.headers.deep_view(),
            body: self.body@,
        }
    }
}

/// The response that serves the sitemap itself: OK, an XML content type,
/// and the file's contents as the body.
pub open spec fn xml_ok_model(contents: Seq<char>) -> ResponseModel {
    ResponseModel {
        status: 200,
        headers: seq![("content-type"@, "application/xml"@)],
        body: contents,
    }
}

/// Build the success response that carries the sitemap file's contents.
pub fn sitemap_file_response(contents: String) -> (r: Response)
    ensures
        r@ == xml_ok_model(contents@),
{
    let mut headers: Vec<(String, String)> = Vec::new();
    headers.push((String::from_str("content-type"), String::from_str("application/xml")));
    let r = Response { status: 200, headers, body: contents };
    proof {
        assert(r@.headers =~= xml_ok_model(r.body@).headers);
        assert(r@ =~~= xml_ok_model(r.body@));
    }
    r
}

/// The value of the first header named `name`, if any.
pub open spec fn header_lookup(headers: Seq<(Seq<char>, Seq<char>)>, name: Seq<char>) -> Option<
    Seq<char>,
>
    decreases headers.len(),
{
    if headers.len() == 0 {
        None
    } else if headers[0].0 == name {
        Some(headers[0].1)
    } else {
        header_lookup(headers.drop_first(), name)
    }
}

impl Response {
    /// Look up a header by exact name.
    pub fn header(&self, name: &str) -> (r: Option<String>)
        ensures
            r is Some <==> header_lookup(self@.headers, name@) is Some,
            r matches Some(v) ==> header_lookup(self@.headers, name@) == Some(v@),
    {
        let name_string = String::from_str(name);
        proof {
            assert(self@.headers.skip(0) =~= self@.headers);
        }
        let mut i: usize = 0;
        while i < self.headers.len()
            invariant
                i <= self.headers.len(),
                name_string@ == name@,
                header_lookup(self@.headers, name@)
                    == header_lookup(self@.headers.skip(i as int), name@),
            decreases self.headers.len() - i,
        {
            let ghost rest = self@.headers.skip(i as int);
            proof {
                assert(rest.len() > 0);
                assert(rest[0] == self@.headers[i as int]);
                assert(rest.drop_first() =~= self@.headers.skip(i as int + 1));
            }
            let pair = &self.headers[i];
            if pair.0 == name_string {
                proof {
                    assert(self@.headers[i as int].0 == pair.0@);
                }
                return Some(pair.1.clone());
            }
            proof {
                assert(self@.headers[i as int].0 == pair.0@);
            }
            i = i + 1;
        }
        proof {
            assert(self@.headers.skip(self.headers.len() as int)
                =~= Seq::<(Seq<char>, Seq<char>)>::empty());
        }
        None
    }
}

} // verus!
