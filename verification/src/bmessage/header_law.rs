//! What the bMessage header keeps: the last vCard before `BEGIN:BENV` is the originator, and
//! each of STATUS, TYPE and FOLDER takes the last value given for it.
use vstd::prelude::*;

use super::spec::{
    crlf, encode_header, encode_spec, encode_vcard, header_at, kv_at, prefix_at, status_of,
    vcard_at, HeaderView,
};
use super::types::{status_wire, BMessageView, MessageStatus, VCardView};

verus! {

/// One item of a bMessage header: a vCard block, or a `KEY:VALUE` line.
pub ghost enum HeaderItem {
    Card(VCardView),
    Field(Seq<char>, Seq<char>),
}

/// The items of the header from `i`, in order, up to `BEGIN:BENV` (or up to where reading stops).
pub open spec fn header_items(s: Seq<char>, i: int) -> Seq<HeaderItem>
    decreases s.len() - i,
{
    if prefix_at(s, i, "BEGIN:VCARD"@) {
        match vcard_at(s, i) {
            Ok((vc, j)) => if j <= i || j > s.len() {
                seq![]
            } else {
                seq![HeaderItem::Card(vc)] + header_items(s, j)
            },
            Err(_) => seq![],
        }
    } else if prefix_at(s, i, "BEGIN:BENV"@) || prefix_at(s, i, "END:BMSG"@) {
        seq![]
    } else {
        match kv_at(s, i) {
            None => seq![],
            Some((k, e, n)) => if n <= i {
                seq![]
            } else {
                seq![HeaderItem::Field(s.subrange(i, k), s.subrange(k + 1, e))] + header_items(
                    s,
                    n,
                )
            },
        }
    }
}

/// The last vCard among `items`, else `d`.
pub open spec fn last_card(items: Seq<HeaderItem>, d: Option<VCardView>) -> Option<VCardView>
    decreases items.len(),
{
    if items.len() == 0 {
        d
    } else {
        match items.last() {
            HeaderItem::Card(v) => Some(v),
            _ => last_card(items.drop_last(), d),
        }
    }
}

/// The last value given for `key` among `items`, else `None`.
pub open spec fn last_value(items: Seq<HeaderItem>, key: Seq<char>) -> Option<Seq<char>>
    decreases items.len(),
{
    if items.len() == 0 {
        None
    } else {
        match items.last() {
            HeaderItem::Field(k, v) => if k == key {
                Some(v)
            } else {
                last_value(items.drop_last(), key)
            },
            _ => last_value(items.drop_last(), key),
        }
    }
}

proof fn lemma_last_card_front(c: HeaderItem, rest: Seq<HeaderItem>, d: Option<VCardView>)
    ensures
        last_card(seq![c] + rest, d) == last_card(
            rest,
            match c {
                HeaderItem::Card(v) => Some(v),
                _ => d,
            },
        ),
    decreases rest.len(),
{
    let x = seq![c] + rest;
    let d2 = match c {
        HeaderItem::Card(v) => Some(v),
        _ => d,
    };
    if rest.len() == 0 {
        assert(x.last() == c);
        assert(x.drop_last() =~= Seq::<HeaderItem>::empty());
        assert(last_card(x.drop_last(), d) == d);
        assert(last_card(rest, d2) == d2);
    } else {
        assert(x.last() == rest.last());
        assert(x.drop_last() =~= seq![c] + rest.drop_last());
        lemma_last_card_front(c, rest.drop_last(), d);
        if !(rest.last() is Card) {
            assert(last_card(x, d) == last_card(x.drop_last(), d));
            assert(last_card(rest, d2) == last_card(rest.drop_last(), d2));
        }
    }
}

proof fn lemma_last_value_front(c: HeaderItem, rest: Seq<HeaderItem>, key: Seq<char>)
    ensures
        last_value(seq![c] + rest, key) == match last_value(rest, key) {
            Some(v) => Some(v),
            None => match c {
                HeaderItem::Field(k, v) => if k == key {
                    Some(v)
                } else {
                    None
                },
                _ => None,
            },
        },
    decreases rest.len(),
{
    let x = seq![c] + rest;
    if rest.len() == 0 {
        assert(x.last() == c);
        assert(x.drop_last() =~= Seq::<HeaderItem>::empty());
    } else {
        assert(x.last() == rest.last());
        assert(x.drop_last() =~= seq![c] + rest.drop_last());
        lemma_last_value_front(c, rest.drop_last(), key);
    }
}

/// The status a STATUS value stands for.
pub open spec fn status_from(v: Option<Seq<char>>, d: Option<MessageStatus>) -> Option<
    MessageStatus,
> {
    match v {
        Some(x) => status_of(x),
        None => d,
    }
}

/// Reading the header keeps the last vCard as the originator and the last value of STATUS,
/// TYPE and FOLDER (each from the fields read before it when none is given).
pub proof fn lemma_header_keeps_last(s: Seq<char>, i: int, h: HeaderView)
    requires
        0 <= i,
    ensures
        header_at(s, i, h) matches Ok((r, _)) ==> {
            let items = header_items(s, i);
            &&& r.originator == last_card(items, h.originator)
            &&& r.status == status_from(last_value(items, "STATUS"@), h.status)
            &&& r.has_type == (h.has_type || last_value(items, "TYPE"@) is Some)
            &&& r.folder == match last_value(items, "FOLDER"@) {
                Some(f) => Some(f),
                None => h.folder,
            }
        },
    decreases s.len() - i,
{
    reveal_strlit("STATUS");
    reveal_strlit("TYPE");
    reveal_strlit("FOLDER");
    assert("STATUS"@.len() == 6 && "TYPE"@.len() == 4 && "FOLDER"@.len() == 6);
    assert("STATUS"@ != "TYPE"@ && "FOLDER"@ != "TYPE"@);
    assert("STATUS"@[0] != "FOLDER"@[0]);
    assert("STATUS"@ != "FOLDER"@);
    if prefix_at(s, i, "BEGIN:VCARD"@) {
        if let Ok((vc, j)) = vcard_at(s, i) {
            if !(j <= i || j > s.len()) {
                let h2 = HeaderView { originator: Some(vc), ..h };
                lemma_header_keeps_last(s, j, h2);
                let rest = header_items(s, j);
                assert(header_items(s, i) == seq![HeaderItem::Card(vc)] + rest);
                lemma_last_card_front(HeaderItem::Card(vc), rest, h.originator);
                lemma_last_value_front(HeaderItem::Card(vc), rest, "STATUS"@);
                lemma_last_value_front(HeaderItem::Card(vc), rest, "TYPE"@);
                lemma_last_value_front(HeaderItem::Card(vc), rest, "FOLDER"@);
            }
        }
    } else if prefix_at(s, i, "BEGIN:BENV"@) {
        assert(header_items(s, i) == Seq::<HeaderItem>::empty());
    } else if prefix_at(s, i, "END:BMSG"@) {
    } else {
        if let Some((k, e, n)) = kv_at(s, i) {
            if n > i {
                let key = s.subrange(i, k);
                let v = s.subrange(k + 1, e);
                let rest = header_items(s, n);
                let c = HeaderItem::Field(key, v);
                assert(header_items(s, i) == seq![c] + rest);
                lemma_last_card_front(c, rest, h.originator);
                lemma_last_value_front(c, rest, "STATUS"@);
                lemma_last_value_front(c, rest, "TYPE"@);
                lemma_last_value_front(c, rest, "FOLDER"@);
                if key == "STATUS"@ {
                    if let Some(st) = status_of(v) {
                        lemma_header_keeps_last(s, n, HeaderView { status: Some(st), ..h });
                    }
                } else if key == "TYPE"@ {
                    lemma_header_keeps_last(s, n, HeaderView { has_type: true, ..h });
                } else if key == "FOLDER"@ {
                    lemma_header_keeps_last(s, n, HeaderView { folder: Some(v), ..h });
                } else {
                    lemma_header_keeps_last(s, n, h);
                }
            }
        }
    }
}

/// An encoded message writes a vCard between its header lines and `BEGIN:BENV` exactly when it
/// has an originator, and that vCard is the originator's.
pub proof fn lemma_encode_originator(m: BMessageView)
    ensures
        encode_spec(m) == crlf("BEGIN:BMSG"@) + crlf("VERSION:1.0"@) + crlf(
            "STATUS:"@ + status_wire(m.status),
        ) + crlf("TYPE:"@ + "SMS_GSM"@) + crlf("FOLDER:"@ + m.folder) + match m.originator {
            Some(v) => encode_vcard(v),
            None => Seq::<char>::empty(),
        } + super::spec::encode_benv(m.envelope) + crlf("END:BMSG"@),
        super::spec::encode_benv(m.envelope).subrange(0, 12) == crlf("BEGIN:BENV"@),
{
    reveal(encode_header);
    reveal(super::spec::encode_benv);
    reveal_strlit("BEGIN:BENV");
    reveal_strlit("\r\n");
    let b = super::spec::encode_benv(m.envelope);
    assert(b.subrange(0, 12) =~= crlf("BEGIN:BENV"@));
}

} // verus!
