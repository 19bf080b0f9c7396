//! The XML emitter: a single-use writer that accumulates an indented,
//! escaped XML document. Serialization itself is the `quick_xml` crate's
//! work behind trusted declarations; the library reasons about the writer
//! through the logical history of events written to it.

use vstd::prelude::*;

verus! {

/// One event in the logical history of an XML writer. Text content is
/// recorded unescaped; escaping is part of rendering. CDATA content is
/// rendered verbatim.
pub enum XmlEvent {
    Decl,
    Open { name: Seq<char> },
    Text { text: Seq<char> },
    Cdata { text: Seq<char> },
    Close { name: Seq<char> },
}

/// An in-progress XML document: an opaque output buffer plus the fixed
/// two-space-indentation configuration it was created with.
#[verifier::external_body]
pub struct XmlWriter {
    inner: quick_xml::Writer<Vec<u8>>,
}

/// The history of events written to `w` since it was created.
pub uninterp spec fn writer_events(w: XmlWriter) -> Seq<XmlEvent>;

/// The bytes a writer's buffer holds after a given event history. The
/// bracketing, indentation and escaping are the XML library's own; the
/// document is a function of the events alone, since every writer is
/// created with the same configuration.
pub uninterp spec fn rendered(events: Seq<XmlEvent>) -> Seq<u8>;

/// A failed write into the output buffer.
#[derive(Debug)]
pub struct EmitError;

impl XmlWriter {
    /// Relies on quick_xml's `Writer::new_with_indent`: a fresh writer has
    /// written nothing.
    #[verifier::external_body]
    pub fn new() -> (w: XmlWriter)
        ensures
            writer_events(w) == Seq::<XmlEvent>::empty(),
    {
        XmlWriter { inner: quick_xml::Writer::new_with_indent(Vec::new(), b' ', 2) }
    }

    /// Relies on quick_xml's `Writer::write_event` with a `Decl` event:
    /// exactly the UTF-8 XML declaration is appended. The call cannot fail:
    /// its only error source is writing into the sink, and the sink is a
    /// `Vec<u8>`, whose `Write` implementation never errors.
    #[verifier::external_body]
    pub fn write_decl(&mut self) -> (r: Result<(), EmitError>)
        ensures
            r is Ok,
            writer_events(*final(self)) == writer_events(*old(self)).push(XmlEvent::Decl),
    {
        self.inner.write_event(
            quick_xml::events::Event::Decl(
                quick_xml::events::BytesDecl::new("1.0", Some("UTF-8"), None),
            ),
        ).map_err(|_| EmitError)
    }

    /// Relies on quick_xml's `Writer::write_event` with a `Start` event:
    /// exactly one opening tag of the given name is appended. Writing into
    /// the `Vec<u8>` sink cannot fail.
    #[verifier::external_body]
    pub fn write_open(&mut self, name: &str) -> (r: Result<(), EmitError>)
        ensures
            r is Ok,
            writer_events(*final(self)) == writer_events(*old(self)).push(
                XmlEvent::Open { name: name@ },
            ),
    {
        self.inner.write_event(
            quick_xml::events::Event::Start(quick_xml::events::BytesStart::new(name)),
        ).map_err(|_| EmitError)
    }

    /// Relies on quick_xml's `Writer::write_event` with a `Text` event:
    /// exactly the given text is appended as escaped element text. Writing
    /// into the `Vec<u8>` sink cannot fail.
    #[verifier::external_body]
    pub fn write_text(&mut self, text: &str) -> (r: Result<(), EmitError>)
        ensures
            r is Ok,
            writer_events(*final(self)) == writer_events(*old(self)).push(
                XmlEvent::Text { text: text@ },
            ),
    {
        self.inner.write_event(
            quick_xml::events::Event::Text(quick_xml::events::BytesText::new(text)),
        ).map_err(|_| EmitError)
    }

    /// Relies on quick_xml's `Writer::write_event` with a `CData` event:
    /// exactly the given text is appended verbatim inside a CDATA section.
    /// Writing into the `Vec<u8>` sink cannot fail.
    #[verifier::external_body]
    pub fn write_cdata(&mut self, text: &str) -> (r: Result<(), EmitError>)
        ensures
            r is Ok,
            writer_events(*final(self)) == writer_events(*old(self)).push(
                XmlEvent::Cdata { text: text@ },
            ),
    {
        self.inner.write_event(
            quick_xml::events::Event::CData(quick_xml::events::BytesCData::new(text)),
        ).map_err(|_| EmitError)
    }

    /// Relies on quick_xml's `Writer::write_event` with an `End` event:
    /// exactly one closing tag of the given name is appended. Writing into
    /// the `Vec<u8>` sink cannot fail.
    #[verifier::external_body]
    pub fn write_close(&mut self, name: &str) -> (r: Result<(), EmitError>)
        ensures
            r is Ok,
            writer_events(*final(self)) == writer_events(*old(self)).push(
                XmlEvent::Close { name: name@ },
            ),
    {
        self.inner.write_event(
            quick_xml::events::Event::End(quick_xml::events::BytesEnd::new(name)),
        ).map_err(|_| EmitError)
    }

    /// Relies on quick_xml's `Writer::into_inner`: finalization hands back
    /// the accumulated buffer, the rendering of the event history.
    #[verifier::external_body]
    pub fn into_bytes(self) -> (r: Vec<u8>)
        ensures
            r@ == rendered(writer_events(self)),
    {
        self.inner.into_inner()
    }
}

/// The event triple of an element holding text content.
pub open spec fn text_tag_events(name: Seq<char>, text: Seq<char>) -> Seq<XmlEvent> {
    seq![
        XmlEvent::Open { name },
        XmlEvent::Text { text },
        XmlEvent::Close { name },
    ]
}

/// The event triple of an element holding a CDATA section.
pub open spec fn cdata_tag_events(name: Seq<char>, text: Seq<char>) -> Seq<XmlEvent> {
    seq![
        XmlEvent::Open { name },
        XmlEvent::Cdata { text },
        XmlEvent::Close { name },
    ]
}

/// Writes one element with text content: open, text, close.
pub fn emit_text_tag(w: &mut XmlWriter, name: &str, text: &str) -> (r: Result<(), EmitError>)
    ensures
        r is Ok,
        writer_events(*final(w)) == writer_events(*old(w)) + text_tag_events(name@, text@),
{
    match w.write_open(name) {
        Ok(u) => u,
        Err(e) => {
            return Err(e);
        },
    }
    match w.write_text(text) {
        Ok(u) => u,
        Err(e) => {
            return Err(e);
        },
    }
    match w.write_close(name) {
        Ok(u) => u,
        Err(e) => {
            return Err(e);
        },
    }
    proof {
        assert(writer_events(*w) =~= writer_events(*old(w)) + text_tag_events(name@, text@));
    }
    Ok(())
}

/// Writes one element holding a CDATA section: open, CDATA, close.
pub fn emit_cdata_tag(w: &mut XmlWriter, name: &str, text: &str) -> (r: Result<(), EmitError>)
    ensures
        r is Ok,
        writer_events(*final(w)) == writer_events(*old(w)) + cdata_tag_events(name@, text@),
{
    match w.write_open(name) {
        Ok(u) => u,
        Err(e) => {
            return Err(e);
        },
    }
    match w.write_cdata(text) {
        Ok(u) => u,
        Err(e) => {
            return Err(e);
        },
    }
    match w.write_close(name) {
        Ok(u) => u,
        Err(e) => {
            return Err(e);
        },
    }
    proof {
        assert(writer_events(*w) =~= writer_events(*old(w)) + cdata_tag_events(name@, text@));
    }
    Ok(())
}

} // verus!
