//! Selecting the image attachment of a fetched message.
//!
//! The platform hands back a message as an ordered attachment list; an
//! attachment counts as an image when its declared pixel width is known (no
//! content sniffing is done). The resolver picks the first such attachment
//! and pairs its url with a mention of the message's author.

use vstd::prelude::*;

verus! {

/// One attachment of a fetched message: its download url and its declared
/// pixel dimensions, when the platform knows them.
pub struct Attachment {
    pub url: String,
    pub width: Option<u32>,
    pub height: Option<u32>,
}

/// What the pipeline needs of a fetched message: a mention of its author and
/// its attachments, in the order the platform gave them.
pub struct MessageView {
    pub author_mention: String,
    pub attachments: Vec<Attachment>,
}

/// The resolved target of one pipeline run: the url of the chosen image and
/// the mention of the author it will be credited to.
pub struct AttachmentRef {
    pub url: String,
    pub author_mention: String,
}

/// Index of the first attachment whose declared width is known, or `-1` when
/// no attachment has one.
pub open spec fn first_image_index(atts: Seq<Attachment>) -> int
    decreases atts.len(),
{
    if atts.len() == 0 {
        -1
    } else if atts[0].width is Some {
        0
    } else {
        let rest = first_image_index(atts.drop_first());
        if rest == -1 {
            -1
        } else {
            rest + 1
        }
    }
}

/// `first_image_index` points at an attachment with a known width, every
/// attachment before it has none, and `-1` means none has one.
pub proof fn lemma_first_image_index(atts: Seq<Attachment>)
    ensures
        -1 <= first_image_index(atts) < atts.len(),
        first_image_index(atts) >= 0 ==> atts[first_image_index(atts)].width is Some,
        forall|j: int| 0 <= j < first_image_index(atts) ==> atts[j].width is None,
        first_image_index(atts) == -1 ==> forall|j: int|
            0 <= j < atts.len() ==> atts[j].width is None,
    decreases atts.len(),
{
    if atts.len() > 0 && atts[0].width is None {
        lemma_first_image_index(atts.drop_first());
        assert forall|j: int| 0 <= j < first_image_index(atts) implies atts[j].width is None by {
            if j > 0 {
                assert(atts[j] == atts.drop_first()[j - 1]);
            }
        }
        if first_image_index(atts) == -1 {
            assert forall|j: int| 0 <= j < atts.len() implies atts[j].width is None by {
                if j > 0 {
                    assert(atts[j] == atts.drop_first()[j - 1]);
                }
            }
        }
    }
}

/// Scans the message's attachments in their given order and resolves the
/// first one whose declared width is known; yields nothing when no
/// attachment qualifies.
pub fn first_image(msg: &MessageView) -> (r: Option<AttachmentRef>)
    ensures
        match r {
            Some(aref) => {
                let i = first_image_index(msg.attachments@);
                &&& i >= 0
                &&& aref.url@ == msg.attachments@[i].url@
                &&& aref.author_mention@ == msg.author_mention@
            },
            None => first_image_index(msg.attachments@) == -1,
        },
{
    let n = msg.attachments.len();
    let mut i: usize = 0;
    while i < n
        invariant
            n == msg.attachments@.len(),
            i <= n,
            forall|j: int| 0 <= j < i ==> msg.attachments@[j].width is None,
        decreases n - i,
    {
        if msg.attachments[i].width.is_some() {
            proof {
                lemma_first_image_index(msg.attachments@);
            }
            return Some(
                AttachmentRef {
                    url: msg.attachments[i].url.clone(),
                    author_mention: msg.author_mention.clone(),
                },
            );
        }
        i = i + 1;
    }
    proof {
        lemma_first_image_index(msg.attachments@);
    }
    None
}

} // verus!
