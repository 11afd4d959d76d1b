//! The request that asks the model to classify one batch of file names.

use vstd::prelude::*;

verus! {

/// The instructions that stand before the list of file names.
pub const PROMPT_HEAD: &'static str =
    "Analyze this list of filenames and assign a concise directory name for each.\
    \n        Rules:\
    \n        1. Group files primarily by file extension and type (e.g., all .mp3/.wav files should go to 'Music' or 'Audio', .jpg/.png to 'Images').\
    \n        2. Do NOT translate Japanese or foreign filenames to English for the category name. Classify them by their file type (e.g. 'Music').\
    \n        3. Use specific categories only if semantically distinct (e.g., 'Invoices' vs 'Documents').\
    \n        Return ONLY a JSON object mapping filenames to directory names.\
    \n        Filenames: ";

/// The example of the expected answer that stands after the list.
pub const PROMPT_TAIL: &'static str =
    "\n        Example output: { \"song.mp3\": \"Music\", \"photo.jpg\": \"Images\", \"invoice.pdf\": \"Documents\" }";

/// The list without any file name.
pub const EMPTY_LISTING: &'static str = "[]";

/// The response format that the endpoint is asked for.
pub const JSON_FORMAT: &'static str = "json";

/// What `serde_json::to_string` writes for a list of strings: a JSON array
/// of JSON strings.
pub uninterp spec fn json_array_text(items: Seq<Seq<char>>) -> Seq<char>;

/// The prompt round the listing `listing`.
pub open spec fn prompt_text(listing: Seq<char>) -> Seq<char> {
    PROMPT_HEAD@ + listing + PROMPT_TAIL@
}

/// The body of one request to the inference endpoint.
#[derive(Debug, Clone, PartialEq, Eq)]
pub struct ClassificationRequest {
    /// The model that is asked.
    pub model: String,
    /// The instructions together with the file names of the batch.
    pub prompt: String,
    /// Whether the answer is to be streamed. Never set.
    pub stream: bool,
    /// The response format that is asked for.
    pub format: String,
}

/// Calls `serde_json::to_string` on a list of strings. Trusted: it
/// succeeds, and the text depends on the strings alone; the contract names
/// it. It succeeds because the only errors on the way of a list of strings
/// are those of the writer, and the writer is a byte vector that grows.
#[verifier::external_body]
pub(crate) fn write_json_array(items: &Vec<String>) -> (r: Result<String, serde_json::Error>)
    ensures
        r is Ok,
        r matches Ok(text) ==> text@ == json_array_text(items.deep_view()),
{
    serde_json::to_string(items)
}

/// The prompt that asks for the classification of the files listed in
/// `listing`: the instructions, the listing, and the example of the answer.
pub fn prompt_for_listing(listing: &str) -> (prompt: String)
    ensures
        prompt@ == prompt_text(listing@),
{
    let mut prompt = String::from_str(PROMPT_HEAD);
    prompt.append(listing);
    prompt.append(PROMPT_TAIL);
    prompt
}

/// The listing of a batch's file names: all the names, in the batch's
/// order, as one JSON array. The writer does not fail on a list of strings;
/// the empty array stands ready for the case that it ever should.
pub fn listing_of(filenames: &Vec<String>) -> (listing: String)
    ensures
        listing@ == json_array_text(filenames.deep_view()),
{
    match write_json_array(filenames) {
        Ok(text) => text,
        Err(_) => String::from_str(EMPTY_LISTING),
    }
}

/// The one prompt that describes a whole batch: all its file names as a
/// single list inside the instructions.
pub fn build_prompt(filenames: &Vec<String>) -> (prompt: String)
    ensures
        prompt@ == prompt_text(json_array_text(filenames.deep_view())),
{
    let listing = listing_of(filenames);
    prompt_for_listing(listing.as_str())
}

impl ClassificationRequest {
    /// The request for the prompt `prompt`: not streamed, answer as JSON.
    pub fn with_prompt(model: &str, prompt: String) -> (request: ClassificationRequest)
        ensures
            request.model@ == model@,
            request.prompt@ == prompt@,
            !request.stream,
            request.format@ == JSON_FORMAT@,
    {
        ClassificationRequest {
            model: String::from_str(model),
            prompt,
            stream: false,
            format: String::from_str(JSON_FORMAT),
        }
    }

    /// The request that asks `model` to classify the batch with the file
    /// names `filenames`.
    pub fn for_batch(model: &str, filenames: &Vec<String>) -> (request: ClassificationRequest)
        ensures
            request.model@ == model@,
            request.prompt@ == prompt_text(json_array_text(filenames.deep_view())),
            !request.stream,
            request.format@ == JSON_FORMAT@,
    {
        ClassificationRequest::with_prompt(model, build_prompt(filenames))
    }
}

} // verus!
