//! Cloud credential configuration for object-store and stream-shipping
//! sources: deriving a credential config from options (no region
//! inference) and extracting a region from a resource identifier.
//!
//! The identity-probe call that validates the credentials is the
//! driver's work.

use vstd::prelude::*;

use crate::errors::PurifyError;
use crate::options::OptionValue;
use crate::options::StmtOption;
use crate::options::StmtOptionView;
use crate::options::StringOrSecret;
use crate::options::StringOrSecretView;
use crate::options::find_option;
use crate::options::lemma_stmt_get_some;
use crate::options::stmt_get;
use crate::csr::sos_of_value;
use crate::connections::opt_view;

verus! {

/// A cloud credential configuration, derived from options only.
#[derive(Clone, Debug, PartialEq, Eq)]
pub struct AwsConfig {
    pub region: Option<String>,
    pub endpoint: Option<String>,
    pub access_key_id: Option<StringOrSecret>,
    pub secret_access_key: Option<StringOrSecret>,
    pub token: Option<StringOrSecret>,
}

/// The region the config will use: an override wins over the option.
pub open spec fn spec_region_choice(
    override_region: Option<Seq<char>>,
    opts: Seq<StmtOptionView>,
) -> Option<Seq<char>> {
    match override_region {
        Some(r) => Some(r),
        None => match stmt_get(opts, "region"@) {
            Some(crate::options::OptionValueView::Text(s)) => Some(s),
            _ => None,
        },
    }
}

/// When the credential options are well-formed: a region (given or
/// overridden) or an explicit endpoint, and each credential entry of the
/// right shape.
pub open spec fn aws_options_ok(
    override_region: Option<Seq<char>>,
    opts: Seq<StmtOptionView>,
) -> bool {
    &&& match stmt_get(opts, "region"@) {
        Some(v) => v is Text,
        None => true,
    }
    &&& match stmt_get(opts, "endpoint"@) {
        Some(v) => v is Text,
        None => true,
    }
    &&& (spec_region_choice(override_region, opts) is Some || stmt_get(opts, "endpoint"@) is Some)
    &&& match stmt_get(opts, "access_key_id"@) {
        Some(v) => sos_of_value(v) is Some,
        None => true,
    }
    &&& match stmt_get(opts, "secret_access_key"@) {
        Some(v) => sos_of_value(v) is Some,
        None => true,
    }
    &&& match stmt_get(opts, "token"@) {
        Some(v) => sos_of_value(v) is Some,
        None => true,
    }
}

/// Reads one optional text option.
fn read_text_option(opts: &Vec<StmtOption>, key: &str) -> (r: Result<Option<String>, PurifyError>)
    ensures
        match r {
            Ok(v) => match stmt_get(opts@.map_values(|o: StmtOption| o@), key@) {
                Some(crate::options::OptionValueView::Text(s)) => v matches Some(t) && t@ == s,
                Some(_) => false,
                None => v is None,
            },
            Err(e) => e is OptionTypeError && (match stmt_get(
                opts@.map_values(|o: StmtOption| o@),
                key@,
            ) {
                Some(v) => !(v is Text),
                None => false,
            }),
        },
{
    match find_option(opts, key) {
        Some(OptionValue::Text(s)) => Ok(Some(s.clone())),
        Some(_) => Err(PurifyError::OptionTypeError { key: key.to_owned() }),
        None => {
            proof {
                lemma_stmt_get_some(opts@.map_values(|o: StmtOption| o@), key@);
            }
            Ok(None)
        },
    }
}

/// Reads one optional string-or-secret option.
fn read_sos(opts: &Vec<StmtOption>, key: &str) -> (r: Result<Option<StringOrSecret>, PurifyError>)
    ensures
        match r {
            Ok(v) => match stmt_get(opts@.map_values(|o: StmtOption| o@), key@) {
                Some(w) => sos_of_value(w) is Some && opt_view(v) == sos_of_value(w),
                None => v is None,
            },
            Err(e) => e is OptionTypeError && (match stmt_get(
                opts@.map_values(|o: StmtOption| o@),
                key@,
            ) {
                Some(w) => sos_of_value(w) is None,
                None => false,
            }),
        },
{
    match find_option(opts, key) {
        Some(OptionValue::Text(s)) => Ok(Some(StringOrSecret::Plain(s.clone()))),
        Some(OptionValue::Secret(id)) => Ok(Some(StringOrSecret::Secret(*id))),
        Some(_) => Err(PurifyError::OptionTypeError { key: key.to_owned() }),
        None => {
            proof {
                lemma_stmt_get_some(opts@.map_values(|o: StmtOption| o@), key@);
            }
            Ok(None)
        },
    }
}

/// How a derived credential config relates to the options and the region
/// override it came from.
pub open spec fn aws_config_matches(
    c: AwsConfig,
    override_region: Option<Seq<char>>,
    opts: Seq<StmtOptionView>,
) -> bool {
    &&& (match c.region {
        Some(s) => Some(s@),
        None => None,
    }) == spec_region_choice(override_region, opts)
    &&& (match c.endpoint {
        Some(s) => Some(s@),
        None => None,
    }) == (match stmt_get(opts, "endpoint"@) {
        Some(crate::options::OptionValueView::Text(s)) => Some(s),
        _ => None,
    })
    &&& opt_view(c.access_key_id) == (match stmt_get(opts, "access_key_id"@) {
        Some(v) => sos_of_value(v),
        None => None,
    })
    &&& opt_view(c.secret_access_key) == (match stmt_get(opts, "secret_access_key"@) {
        Some(v) => sos_of_value(v),
        None => None,
    })
    &&& opt_view(c.token) == (match stmt_get(opts, "token"@) {
        Some(v) => sos_of_value(v),
        None => None,
    })
}

/// Derives a cloud credential configuration from the statement options.
/// No region is ever inferred: one must come from the options, from the
/// override (stream-shipping), or implicitly via an explicit endpoint.
///
/// Succeeds exactly when the options are well-formed ([`aws_options_ok`]).
pub fn aws_config_from_options(
    options: &Vec<StmtOption>,
    override_region: Option<String>,
) -> (r: Result<AwsConfig, PurifyError>)
    ensures
        ({
            let opts = options@.map_values(|o: StmtOption| o@);
            let ovr = match override_region {
                Some(s) => Some(s@),
                None => None,
            };
            match r {
                Ok(c) => aws_options_ok(ovr, opts) && aws_config_matches(c, ovr, opts),
                Err(_) => !aws_options_ok(ovr, opts),
            }
        }),
{
    let region_opt = match read_text_option(options, "region") {
        Ok(v) => v,
        Err(e) => {
            return Err(e);
        },
    };
    let endpoint = match read_text_option(options, "endpoint") {
        Ok(v) => v,
        Err(e) => {
            return Err(e);
        },
    };
    let region = match override_region {
        Some(r) => Some(r),
        None => region_opt,
    };
    if region.is_none() && endpoint.is_none() {
        return Err(PurifyError::MissingOption { key: "region".to_owned() });
    }
    let access_key_id = match read_sos(options, "access_key_id") {
        Ok(v) => v,
        Err(e) => {
            return Err(e);
        },
    };
    let secret_access_key = match read_sos(options, "secret_access_key") {
        Ok(v) => v,
        Err(e) => {
            return Err(e);
        },
    };
    let token = match read_sos(options, "token") {
        Ok(v) => v,
        Err(e) => {
            return Err(e);
        },
    };
    Ok(AwsConfig { region, endpoint, access_key_id, secret_access_key, token })
}

/// What a resource identifier parses to: nothing if it is not an ARN,
/// otherwise its optional region component.
pub uninterp spec fn arn_parse_of(s: Seq<char>) -> Option<Option<Seq<char>>>;

/// Relies on `aws_arn::ResourceName::from_str`: parsing is a function of
/// the text alone, and the `region` field holds the region component if
/// the identifier has one.
#[verifier::external_body]
fn parse_arn_region(arn: &str) -> (r: Option<Option<String>>)
    ensures
        match r {
            Some(Some(region)) => arn_parse_of(arn@) == Some(Some(region@)),
            Some(None) => arn_parse_of(arn@) == Some(None::<Seq<char>>),
            None => arn_parse_of(arn@) is None,
        },
{
    match arn.parse::<aws_arn::ResourceName>() {
        Ok(rn) => Some(rn.region.map(|r| r.to_string())),
        Err(_) => None,
    }
}

/// Extracts the region from a stream resource identifier.
///
/// Fails on unparseable identifiers and on identifiers that name no
/// region, each with its own error.
pub fn arn_region(arn: &str) -> (r: Result<String, PurifyError>)
    ensures
        match r {
            Ok(region) => arn_parse_of(arn@) == Some(Some(region@)),
            Err(e) => match e {
                PurifyError::ArnParseFailed { arn: a } => a@ == arn@ && arn_parse_of(arn@) is None,
                PurifyError::MissingRegion { arn: a } => a@ == arn@ && arn_parse_of(arn@) == Some(
                    None::<Seq<char>>,
                ),
                _ => false,
            },
        },
{
    match parse_arn_region(arn) {
        Some(Some(region)) => Ok(region),
        Some(None) => Err(PurifyError::MissingRegion { arn: arn.to_owned() }),
        None => Err(PurifyError::ArnParseFailed { arn: arn.to_owned() }),
    }
}

} // verus!
