//! Configuration of a worker: filters, buffers, weekend curfew and data-loss policy.

use crate::curfew::{clock_time, curfew_window, law_clock_time_of_digits, mode_from_text, mode_view};
use crate::curfew::{parse_time, WeekendMode};
use crate::error::{ErrorModel, RedFolderError, Result};
use crate::text::{blank, decimal, join3, signed_text, trimmed};
use crate::types::{Currency, CurrencyModel, FailSafeMode, Impact, ImpactModel};
use crate::views::{lemma_views_push, result_view, views};
use vstd::prelude::*;

verus! {

/// Configuration of one worker's news blackouts and weekend curfew.
#[derive(Debug, PartialEq, Eq)]
pub struct RedFolderConfig {
    /// Whether blackouts are enforced at all for this worker.
    pub enabled: bool,
    /// Currencies to watch.
    pub currencies: Vec<Currency>,
    /// Impact levels to watch.
    pub impacts: Vec<Impact>,
    /// Minutes before an event at which its blackout begins.
    pub before_min: i64,
    /// Minutes after an event at which its blackout ends.
    pub after_min: i64,
    /// Longest gap in minutes between blackouts that are merged into one.
    pub merge_threshold_min: i64,
    /// Whether the weekend curfew is enforced. It applies whatever the currency and impact filters
    /// are.
    pub weekend_enabled: bool,
    /// Start time of the weekend curfew in UTC, such as `20:30`.
    pub weekend_start: String,
    /// End time of a short weekend curfew in UTC, such as `21:00`.
    pub weekend_end: String,
    pub weekend_mode: WeekendMode,
    /// Minutes before a blackout at which a warning is given, if one is.
    pub warning_before_min: Option<i64>,
    /// Whether an all-day event blocks its day.
    pub include_all_day: bool,
    /// Whether a tentative event blocks its day.
    pub include_tentative: bool,
    /// What holds while calendar data is missing or stale.
    pub fail_safe_mode: FailSafeMode,
}

/// Another name of [`RedFolderConfig`].
pub type NewsConfig = RedFolderConfig;

/// What a [`RedFolderConfig`] is.
pub ghost struct ConfigModel {
    pub enabled: bool,
    pub currencies: Seq<CurrencyModel>,
    pub impacts: Seq<ImpactModel>,
    pub before_min: int,
    pub after_min: int,
    pub merge_threshold_min: int,
    pub weekend_enabled: bool,
    pub weekend_start: Seq<char>,
    pub weekend_end: Seq<char>,
    pub weekend_mode: WeekendMode,
    pub warning_before_min: Option<i64>,
    pub include_all_day: bool,
    pub include_tentative: bool,
    pub fail_safe_mode: FailSafeMode,
}

impl View for RedFolderConfig {
    type V = ConfigModel;

    open spec fn view(&self) -> ConfigModel {
        ConfigModel {
            enabled: self.enabled,
            currencies: views(self.currencies@),
            impacts: views(self.impacts@),
            before_min: self.before_min as int,
            after_min: self.after_min as int,
            merge_threshold_min: self.merge_threshold_min as int,
            weekend_enabled: self.weekend_enabled,
            weekend_start: self.weekend_start@,
            weekend_end: self.weekend_end@,
            weekend_mode: self.weekend_mode,
            warning_before_min: self.warning_before_min,
            include_all_day: self.include_all_day,
            include_tentative: self.include_tentative,
            fail_safe_mode: self.fail_safe_mode,
        }
    }
}

impl Clone for RedFolderConfig {
    fn clone(&self) -> (r: Self)
        ensures
            r@ == self@,
    {
        let currencies: Vec<Currency> = self.currencies.clone();
        let impacts: Vec<Impact> = self.impacts.clone();
        assert(views(currencies@) =~= views(self.currencies@));
        assert(views(impacts@) =~= views(self.impacts@));
        RedFolderConfig {
            enabled: self.enabled,
            currencies,
            impacts,
            before_min: self.before_min,
            after_min: self.after_min,
            merge_threshold_min: self.merge_threshold_min,
            weekend_enabled: self.weekend_enabled,
            weekend_start: self.weekend_start.clone(),
            weekend_end: self.weekend_end.clone(),
            weekend_mode: self.weekend_mode,
            warning_before_min: self.warning_before_min,
            include_all_day: self.include_all_day,
            include_tentative: self.include_tentative,
            fail_safe_mode: self.fail_safe_mode,
        }
    }
}

/// The text of the first currency that is none of the standard ones.
pub open spec fn first_custom_currency(s: Seq<CurrencyModel>) -> Option<Seq<char>>
    decreases s.len(),
{
    if s.len() == 0 {
        None
    } else {
        match s.first() {
            CurrencyModel::Custom(text) => Some(text),
            _ => first_custom_currency(s.drop_first()),
        }
    }
}

/// The text of the first impact that is none of the standard ones.
pub open spec fn first_custom_impact(s: Seq<ImpactModel>) -> Option<Seq<char>>
    decreases s.len(),
{
    if s.len() == 0 {
        None
    } else {
        match s.first() {
            ImpactModel::Custom(text) => Some(text),
            _ => first_custom_impact(s.drop_first()),
        }
    }
}

/// What is wrong with a number of minutes called `name` that must not be negative.
pub open spec fn negative_fault(name: Seq<char>, minutes: int) -> ErrorModel {
    ErrorModel::Config(name + " cannot be negative (got "@ + decimal(minutes) + ")"@)
}

impl ConfigModel {
    /// The default configuration.
    pub open spec fn standard() -> ConfigModel {
        ConfigModel {
            enabled: true,
            currencies: seq![CurrencyModel::USD],
            impacts: seq![ImpactModel::High],
            before_min: 30,
            after_min: 30,
            merge_threshold_min: 30,
            weekend_enabled: true,
            weekend_start: "20:30"@,
            weekend_end: "21:00"@,
            weekend_mode: WeekendMode::Short,
            warning_before_min: None,
            include_all_day: false,
            include_tentative: false,
            fail_safe_mode: FailSafeMode::FailOpen,
        }
    }

    /// The configuration for prop firm challenges.
    pub open spec fn prop_firm() -> ConfigModel {
        ConfigModel {
            enabled: true,
            currencies: seq![
                CurrencyModel::USD,
                CurrencyModel::EUR,
                CurrencyModel::GBP,
                CurrencyModel::JPY,
                CurrencyModel::CAD,
                CurrencyModel::AUD,
                CurrencyModel::NZD,
                CurrencyModel::CHF,
            ],
            impacts: seq![ImpactModel::High],
            before_min: 5,
            after_min: 5,
            merge_threshold_min: 15,
            weekend_enabled: true,
            weekend_start: "20:00"@,
            weekend_end: "21:00"@,
            weekend_mode: WeekendMode::Weekend,
            warning_before_min: Some(15),
            include_all_day: false,
            include_tentative: false,
            fail_safe_mode: FailSafeMode::FailClosed,
        }
    }

    /// The configuration with wide buffers.
    pub open spec fn wide() -> ConfigModel {
        ConfigModel {
            enabled: true,
            currencies: seq![
                CurrencyModel::USD,
                CurrencyModel::EUR,
                CurrencyModel::GBP,
                CurrencyModel::JPY,
                CurrencyModel::CAD,
                CurrencyModel::AUD,
                CurrencyModel::NZD,
                CurrencyModel::CHF,
            ],
            impacts: seq![ImpactModel::High, ImpactModel::Medium],
            before_min: 30,
            after_min: 30,
            merge_threshold_min: 30,
            weekend_enabled: true,
            weekend_start: "20:30"@,
            weekend_end: "21:00"@,
            weekend_mode: WeekendMode::Weekend,
            warning_before_min: Some(30),
            include_all_day: false,
            include_tentative: false,
            fail_safe_mode: FailSafeMode::FailClosed,
        }
    }

    /// The first thing that is wrong with the configuration, if anything is: a filter that is empty
    /// or holds a blank entry, a negative number of minutes, or a curfew time that is no time. The
    /// curfew times count even where the curfew is off; the end time may be empty in weekend mode.
    pub open spec fn fault(self) -> Option<ErrorModel> {
        if self.currencies.len() == 0 {
            Some(
                ErrorModel::Config(
                    "currencies filter cannot be empty; specify at least one currency or 'All'"@,
                ),
            )
        } else if exists|i: int|
            0 <= i < self.currencies.len() && blank((#[trigger] self.currencies[i]).text()) {
            Some(ErrorModel::Config("currency filter cannot contain empty or blank strings"@))
        } else if self.impacts.len() == 0 {
            Some(
                ErrorModel::Config(
                    "impacts filter cannot be empty; specify at least one impact level (e.g. 'High')"@,
                ),
            )
        } else if exists|i: int|
            0 <= i < self.impacts.len() && blank((#[trigger] self.impacts[i]).text()) {
            Some(ErrorModel::Config("impact filter cannot contain empty or blank strings"@))
        } else if self.before_min < 0 {
            Some(negative_fault("before_min"@, self.before_min))
        } else if self.after_min < 0 {
            Some(negative_fault("after_min"@, self.after_min))
        } else if self.merge_threshold_min < 0 {
            Some(negative_fault("merge_threshold_min"@, self.merge_threshold_min))
        } else if self.warning_before_min is Some && self.warning_before_min->Some_0 < 0 {
            Some(negative_fault("warning_before_min"@, self.warning_before_min->Some_0 as int))
        } else if clock_time(self.weekend_start) is None {
            Some(ErrorModel::ParseTime(self.weekend_start))
        } else if (self.weekend_mode is Short || self.weekend_end.len() > 0) && clock_time(
            self.weekend_end,
        ) is None {
            Some(ErrorModel::ParseTime(self.weekend_end))
        } else {
            None
        }
    }

    /// The first thing that is wrong with the configuration where only standard currencies and
    /// impacts are allowed.
    pub open spec fn strict_fault(self) -> Option<ErrorModel> {
        match self.fault() {
            Some(e) => Some(e),
            None => match first_custom_currency(self.currencies) {
                Some(text) => Some(
                    ErrorModel::Config(
                        "unknown non-standard currency '"@ + text + "' rejected in strict mode"@,
                    ),
                ),
                None => match first_custom_impact(self.impacts) {
                    Some(text) => Some(
                        ErrorModel::Config(
                            "unknown non-standard impact '"@ + text + "' rejected in strict mode"@,
                        ),
                    ),
                    None => None,
                },
            },
        }
    }
}

impl Default for RedFolderConfig {
    fn default() -> (r: Self)
        ensures
            r@ == ConfigModel::standard(),
    {
        let currencies: Vec<Currency> = vec![Currency::USD];
        let impacts: Vec<Impact> = vec![Impact::High];
        assert(views(currencies@) =~= seq![CurrencyModel::USD]);
        assert(views(impacts@) =~= seq![ImpactModel::High]);
        RedFolderConfig {
            enabled: true,
            currencies,
            impacts,
            before_min: 30,
            after_min: 30,
            merge_threshold_min: 30,
            weekend_enabled: true,
            weekend_start: "20:30".to_string(),
            weekend_end: "21:00".to_string(),
            weekend_mode: WeekendMode::Short,
            warning_before_min: None,
            include_all_day: false,
            include_tentative: false,
            fail_safe_mode: FailSafeMode::FailOpen,
        }
    }
}

/// The error for a number of minutes that must not be negative.
fn negative(name: &str, minutes: i64) -> (r: RedFolderError)
    ensures
        r@ == negative_fault(name@, minutes as int),
{
    let number: String = signed_text(minutes);
    let head: String = join3(name, " cannot be negative (got ", number.as_str());
    let mut text: String = head;
    text.append(")");
    RedFolderError::Config(text)
}

impl RedFolderConfig {
    /// A builder that starts from the defaults.
    #[must_use]
    pub fn builder() -> (r: RedFolderConfigBuilder)
        ensures
            r@ == BuilderModel::start(),
    {
        RedFolderConfigBuilder::default()
    }

    /// Preset for prop firm challenges: five minutes before and after high-impact news of the
    /// eight major currencies, the weekend curfew until Monday, and a halt on data outages.
    #[must_use]
    pub fn prop_firm_strict() -> (r: Self)
        ensures
            r@ == ConfigModel::prop_firm(),
    {
        let currencies: Vec<Currency> = vec![
            Currency::USD,
            Currency::EUR,
            Currency::GBP,
            Currency::JPY,
            Currency::CAD,
            Currency::AUD,
            Currency::NZD,
            Currency::CHF,
        ];
        let impacts: Vec<Impact> = vec![Impact::High];
        assert(views(currencies@) =~= ConfigModel::prop_firm().currencies);
        assert(views(impacts@) =~= seq![ImpactModel::High]);
        RedFolderConfig {
            enabled: true,
            currencies,
            impacts,
            before_min: 5,
            after_min: 5,
            merge_threshold_min: 15,
            weekend_enabled: true,
            weekend_start: "20:00".to_string(),
            weekend_end: "21:00".to_string(),
            weekend_mode: WeekendMode::Weekend,
            warning_before_min: Some(15),
            include_all_day: false,
            include_tentative: false,
            fail_safe_mode: FailSafeMode::FailClosed,
        }
    }

    /// Preset with thirty-minute buffers around high- and medium-impact news of the eight major
    /// currencies, the weekend curfew until Monday, and a halt on data outages.
    #[must_use]
    pub fn conservative() -> (r: Self)
        ensures
            r@ == ConfigModel::wide(),
    {
        let currencies: Vec<Currency> = vec![
            Currency::USD,
            Currency::EUR,
            Currency::GBP,
            Currency::JPY,
            Currency::CAD,
            Currency::AUD,
            Currency::NZD,
            Currency::CHF,
        ];
        let impacts: Vec<Impact> = vec![Impact::High, Impact::Medium];
        assert(views(currencies@) =~= ConfigModel::wide().currencies);
        assert(views(impacts@) =~= ConfigModel::wide().impacts);
        RedFolderConfig {
            enabled: true,
            currencies,
            impacts,
            before_min: 30,
            after_min: 30,
            merge_threshold_min: 30,
            weekend_enabled: true,
            weekend_start: "20:30".to_string(),
            weekend_end: "21:00".to_string(),
            weekend_mode: WeekendMode::Weekend,
            warning_before_min: Some(30),
            include_all_day: false,
            include_tentative: false,
            fail_safe_mode: FailSafeMode::FailClosed,
        }
    }

    /// Checks that the filters are not empty and hold no blank entry, that no number of minutes is
    /// negative, and that the curfew times are times.
    pub fn validate(&self) -> (r: Result<()>)
        ensures
            match r {
                Ok(_) => self@.fault() is None,
                Err(e) => self@.fault() == Some(e@),
            },
    {
        if self.currencies.len() == 0 {
            return Err(
                RedFolderError::Config(
                    "currencies filter cannot be empty; specify at least one currency or 'All'".to_string(),
                ),
            );
        }
        let mut i: usize = 0;
        while i < self.currencies.len()
            invariant
                i <= self.currencies.len(),
                self@.currencies.len() > 0,
                forall|k: int| 0 <= k < i ==> !blank((#[trigger] self@.currencies[k]).text()),
            decreases self.currencies.len() - i,
        {
            assert(self@.currencies[i as int] == self.currencies@[i as int]@);
            if self.currencies[i].as_str().trim().is_empty() {
                return Err(
                    RedFolderError::Config(
                        "currency filter cannot contain empty or blank strings".to_string(),
                    ),
                );
            }
            i = i + 1;
        }
        if self.impacts.len() == 0 {
            return Err(
                RedFolderError::Config(
                    "impacts filter cannot be empty; specify at least one impact level (e.g. 'High')".to_string(),
                ),
            );
        }
        let mut j: usize = 0;
        while j < self.impacts.len()
            invariant
                j <= self.impacts.len(),
                self@.currencies.len() > 0,
                self@.impacts.len() > 0,
                forall|k: int|
                    0 <= k < self@.currencies.len() ==> !blank(
                        (#[trigger] self@.currencies[k]).text(),
                    ),
                forall|k: int| 0 <= k < j ==> !blank((#[trigger] self@.impacts[k]).text()),
            decreases self.impacts.len() - j,
        {
            assert(self@.impacts[j as int] == self.impacts@[j as int]@);
            if self.impacts[j].name().trim().is_empty() {
                return Err(
                    RedFolderError::Config(
                        "impact filter cannot contain empty or blank strings".to_string(),
                    ),
                );
            }
            j = j + 1;
        }
        if self.before_min < 0 {
            return Err(negative("before_min", self.before_min));
        }
        if self.after_min < 0 {
            return Err(negative("after_min", self.after_min));
        }
        if self.merge_threshold_min < 0 {
            return Err(negative("merge_threshold_min", self.merge_threshold_min));
        }
        if let Some(warn) = self.warning_before_min {
            if warn < 0 {
                return Err(negative("warning_before_min", warn));
            }
        }
        // The curfew times are checked even where the curfew is off.
        if let Err(e) = parse_time(self.weekend_start.as_str()) {
            return Err(e);
        }
        if matches!(self.weekend_mode, WeekendMode::Short) || !self.weekend_end.as_str().is_empty() {
            if let Err(e) = parse_time(self.weekend_end.as_str()) {
                return Err(e);
            }
        }
        Ok(())
    }

    /// As [`RedFolderConfig::validate`], and checks besides that all currencies and impacts are
    /// standard ones.
    pub fn validate_strict(&self) -> (r: Result<()>)
        ensures
            match r {
                Ok(_) => self@.strict_fault() is None,
                Err(e) => self@.strict_fault() == Some(e@),
            },
    {
        if let Err(e) = self.validate() {
            return Err(e);
        }
        let mut i: usize = 0;
        assert(self@.currencies.skip(0) =~= self@.currencies);
        while i < self.currencies.len()
            invariant
                i <= self.currencies.len(),
                self@.fault() is None,
                first_custom_currency(self@.currencies) == first_custom_currency(
                    self@.currencies.skip(i as int),
                ),
            decreases self.currencies.len() - i,
        {
            proof {
                let rest = self@.currencies.skip(i as int);
                assert(rest.first() == self.currencies@[i as int]@);
                assert(rest.drop_first() =~= self@.currencies.skip(i + 1));
            }
            if let Currency::Custom(s) = &self.currencies[i] {
                return Err(
                    RedFolderError::Config(
                        join3(
                            "unknown non-standard currency '",
                            s.as_str(),
                            "' rejected in strict mode",
                        ),
                    ),
                );
            }
            i = i + 1;
        }
        let mut j: usize = 0;
        assert(self@.impacts.skip(0) =~= self@.impacts);
        while j < self.impacts.len()
            invariant
                j <= self.impacts.len(),
                self@.fault() is None,
                first_custom_currency(self@.currencies) is None,
                first_custom_impact(self@.impacts) == first_custom_impact(
                    self@.impacts.skip(j as int),
                ),
            decreases self.impacts.len() - j,
        {
            proof {
                let rest = self@.impacts.skip(j as int);
                assert(rest.first() == self.impacts@[j as int]@);
                assert(rest.drop_first() =~= self@.impacts.skip(j + 1));
            }
            if let Impact::Custom(s) = &self.impacts[j] {
                return Err(
                    RedFolderError::Config(
                        join3(
                            "unknown non-standard impact '",
                            s.as_str(),
                            "' rejected in strict mode",
                        ),
                    ),
                );
            }
            j = j + 1;
        }
        Ok(())
    }

    /// The currencies to watch.
    #[must_use]
    pub fn typed_currencies(&self) -> (r: &[Currency])
        ensures
            r@ == self.currencies@,
    {
        self.currencies.as_slice()
    }

    /// The impact levels to watch.
    #[must_use]
    pub fn typed_impacts(&self) -> (r: &[Impact])
        ensures
            r@ == self.impacts@,
    {
        self.impacts.as_slice()
    }

    /// The curfew mode.
    pub fn typed_weekend_mode(&self) -> (r: Result<WeekendMode>)
        ensures
            r is Ok,
            r->Ok_0 == self.weekend_mode,
    {
        Ok(self.weekend_mode)
    }

    /// The codes of the currencies to watch.
    #[must_use]
    pub fn currencies_as_strings(&self) -> (r: Vec<String>)
        ensures
            views(r@) == self@.currencies.map_values(|c: CurrencyModel| c.text()),
    {
        let mut out: Vec<String> = Vec::new();
        let mut i: usize = 0;
        while i < self.currencies.len()
            invariant
                i <= self.currencies.len(),
                out@.len() == i,
                forall|k: int| 0 <= k < i ==> (#[trigger] out@[k])@ == self@.currencies[k].text(),
            decreases self.currencies.len() - i,
        {
            out.push(self.currencies[i].to_string());
            i = i + 1;
        }
        assert(views(out@) =~= self@.currencies.map_values(|c: CurrencyModel| c.text()));
        out
    }

    /// The names of the impact levels to watch.
    #[must_use]
    pub fn impacts_as_strings(&self) -> (r: Vec<String>)
        ensures
            views(r@) == self@.impacts.map_values(|i: ImpactModel| i.text()),
    {
        let mut out: Vec<String> = Vec::new();
        let mut i: usize = 0;
        while i < self.impacts.len()
            invariant
                i <= self.impacts.len(),
                out@.len() == i,
                forall|k: int| 0 <= k < i ==> (#[trigger] out@[k])@ == self@.impacts[k].text(),
            decreases self.impacts.len() - i,
        {
            out.push(self.impacts[i].to_string());
            i = i + 1;
        }
        assert(views(out@) =~= self@.impacts.map_values(|i: ImpactModel| i.text()));
        out
    }
}

/// What a builder takes for a curfew mode: a [`WeekendMode`], or its name as a text.
pub trait IntoWeekendMode: Sized {
    /// The mode meant, or the error in its name.
    spec fn mode(self) -> std::result::Result<WeekendMode, ErrorModel>;

    fn into_weekend_mode(self) -> (r: Result<WeekendMode>)
        ensures
            mode_view(r) == self.mode(),
    ;
}

impl IntoWeekendMode for WeekendMode {
    open spec fn mode(self) -> std::result::Result<WeekendMode, ErrorModel> {
        Ok(self)
    }

    fn into_weekend_mode(self) -> (r: Result<WeekendMode>) {
        Ok(self)
    }
}

impl IntoWeekendMode for &str {
    open spec fn mode(self) -> std::result::Result<WeekendMode, ErrorModel> {
        WeekendMode::parsed(self@)
    }

    fn into_weekend_mode(self) -> (r: Result<WeekendMode>) {
        mode_from_text(self)
    }
}

impl IntoWeekendMode for &String {
    open spec fn mode(self) -> std::result::Result<WeekendMode, ErrorModel> {
        WeekendMode::parsed(self@)
    }

    fn into_weekend_mode(self) -> (r: Result<WeekendMode>) {
        mode_from_text(self.as_str())
    }
}

impl IntoWeekendMode for String {
    open spec fn mode(self) -> std::result::Result<WeekendMode, ErrorModel> {
        WeekendMode::parsed(self@)
    }

    fn into_weekend_mode(self) -> (r: Result<WeekendMode>) {
        mode_from_text(self.as_str())
    }
}

/// What a builder takes for a currency: a [`Currency`], or a text that denotes one.
pub trait IntoCurrency: Sized {
    /// The currency meant.
    spec fn currency(self) -> CurrencyModel;

    fn into_currency(self) -> (r: Currency)
        ensures
            r@ == self.currency(),
    ;
}

impl IntoCurrency for Currency {
    open spec fn currency(self) -> CurrencyModel {
        self@
    }

    fn into_currency(self) -> (r: Currency) {
        self
    }
}

impl IntoCurrency for &str {
    open spec fn currency(self) -> CurrencyModel {
        CurrencyModel::parse(self@)
    }

    fn into_currency(self) -> (r: Currency) {
        Currency::from_text(self)
    }
}

impl IntoCurrency for String {
    open spec fn currency(self) -> CurrencyModel {
        CurrencyModel::parse(self@)
    }

    fn into_currency(self) -> (r: Currency) {
        Currency::from_text(self.as_str())
    }
}

/// What a builder takes for an impact level: an [`Impact`], or a text that denotes one.
pub trait IntoImpact: Sized {
    /// The level meant.
    spec fn impact(self) -> ImpactModel;

    fn into_impact(self) -> (r: Impact)
        ensures
            r@ == self.impact(),
    ;
}

impl IntoImpact for Impact {
    open spec fn impact(self) -> ImpactModel {
        self@
    }

    fn into_impact(self) -> (r: Impact) {
        self
    }
}

impl IntoImpact for &str {
    open spec fn impact(self) -> ImpactModel {
        ImpactModel::parse(self@)
    }

    fn into_impact(self) -> (r: Impact) {
        Impact::from_text(self)
    }
}

impl IntoImpact for String {
    open spec fn impact(self) -> ImpactModel {
        ImpactModel::parse(self@)
    }

    fn into_impact(self) -> (r: Impact) {
        Impact::from_text(self.as_str())
    }
}

/// Builder of a [`RedFolderConfig`].
#[derive(Debug)]
pub struct RedFolderConfigBuilder {
    config: RedFolderConfig,
    custom_currencies: bool,
    custom_impacts: bool,
    mode_err: Option<String>,
}

/// What a [`RedFolderConfigBuilder`] is: the configuration so far, whether the filters still are
/// the default ones, and the error in the last curfew mode given.
pub ghost struct BuilderModel {
    pub config: ConfigModel,
    pub custom_currencies: bool,
    pub custom_impacts: bool,
    pub mode_err: Option<Seq<char>>,
}

impl View for RedFolderConfigBuilder {
    type V = BuilderModel;

    closed spec fn view(&self) -> BuilderModel {
        BuilderModel {
            config: self.config@,
            custom_currencies: self.custom_currencies,
            custom_impacts: self.custom_impacts,
            mode_err: match self.mode_err {
                Some(e) => Some(e@),
                None => None,
            },
        }
    }
}

impl BuilderModel {
    /// A builder with the defaults.
    pub open spec fn start() -> BuilderModel {
        BuilderModel {
            config: ConfigModel::standard(),
            custom_currencies: false,
            custom_impacts: false,
            mode_err: None,
        }
    }

    /// The same builder with another configuration.
    pub open spec fn with(self, config: ConfigModel) -> BuilderModel {
        BuilderModel { config, ..self }
    }

    /// The first thing that is wrong with what was given.
    pub open spec fn fault(self) -> Option<ErrorModel> {
        match self.mode_err {
            Some(text) => Some(ErrorModel::Curfew(text)),
            None => self.config.fault(),
        }
    }

    /// The first thing that is wrong with what was given where only standard currencies and
    /// impacts are allowed.
    pub open spec fn strict_fault(self) -> Option<ErrorModel> {
        match self.mode_err {
            Some(text) => Some(ErrorModel::Curfew(text)),
            None => self.config.strict_fault(),
        }
    }
}

impl Default for RedFolderConfigBuilder {
    fn default() -> (r: Self)
        ensures
            r@ == BuilderModel::start(),
    {
        RedFolderConfigBuilder {
            config: RedFolderConfig::default(),
            custom_currencies: false,
            custom_impacts: false,
            mode_err: None,
        }
    }
}

/// The currencies meant by the items of `s`.
pub open spec fn currencies_of<S: IntoCurrency>(s: Seq<S>) -> Seq<CurrencyModel> {
    s.map_values(|x: S| x.currency())
}

/// The impact levels meant by the items of `s`.
pub open spec fn impacts_of<S: IntoImpact>(s: Seq<S>) -> Seq<ImpactModel> {
    s.map_values(|x: S| x.impact())
}

impl RedFolderConfigBuilder {
    /// Whether blackouts are enforced at all.
    #[must_use]
    pub fn enabled(self, enabled: bool) -> (r: Self)
        ensures
            r@ == self@.with(ConfigModel { enabled, ..self@.config }),
    {
        let mut b: Self = self;
        b.config.enabled = enabled;
        b
    }

    /// Sets the currencies to watch.
    #[must_use]
    pub fn currencies<S: IntoCurrency>(self, currencies: Vec<S>) -> (r: Self)
        ensures
            r@ == (BuilderModel {
                config: ConfigModel {
                    currencies: currencies_of(currencies@),
                    ..self@.config
                },
                custom_currencies: true,
                ..self@
            }),
    {
        let mut out: Vec<Currency> = Vec::new();
        let ghost given = currencies@;
        for c in it: currencies
            invariant
                it.seq() == given,
                out@.len() == it.index(),
                forall|k: int| 0 <= k < out@.len() ==> (#[trigger] out@[k])@ == given[k].currency(),
        {
            out.push(c.into_currency());
        }
        assert(views(out@) =~= currencies_of(given));
        let mut b: Self = self;
        b.config.currencies = out;
        b.custom_currencies = true;
        b
    }

    /// Adds a currency to watch; the first one given takes the place of the default ones.
    #[must_use]
    pub fn currency<S: IntoCurrency>(self, currency: S) -> (r: Self)
        ensures
            r@ == (BuilderModel {
                config: ConfigModel {
                    currencies: (if self@.custom_currencies {
                        self@.config.currencies
                    } else {
                        Seq::empty()
                    }).push(currency.currency()),
                    ..self@.config
                },
                custom_currencies: true,
                ..self@
            }),
    {
        let mut b: Self = self;
        if !b.custom_currencies {
            b.config.currencies = Vec::new();
            b.custom_currencies = true;
            assert(b.config@.currencies =~= Seq::empty());
        }
        let added: Currency = currency.into_currency();
        proof {
            lemma_views_push(b.config.currencies@, added);
        }
        b.config.currencies.push(added);
        b
    }

    /// Sets the impact levels to watch.
    #[must_use]
    pub fn impacts<S: IntoImpact>(self, impacts: Vec<S>) -> (r: Self)
        ensures
            r@ == (BuilderModel {
                config: ConfigModel {
                    impacts: impacts_of(impacts@),
                    ..self@.config
                },
                custom_impacts: true,
                ..self@
            }),
    {
        let mut out: Vec<Impact> = Vec::new();
        let ghost given = impacts@;
        for i in it: impacts
            invariant
                it.seq() == given,
                out@.len() == it.index(),
                forall|k: int| 0 <= k < out@.len() ==> (#[trigger] out@[k])@ == given[k].impact(),
        {
            out.push(i.into_impact());
        }
        assert(views(out@) =~= impacts_of(given));
        let mut b: Self = self;
        b.config.impacts = out;
        b.custom_impacts = true;
        b
    }

    /// Adds an impact level to watch; the first one given takes the place of the default ones.
    #[must_use]
    pub fn impact<S: IntoImpact>(self, impact: S) -> (r: Self)
        ensures
            r@ == (BuilderModel {
                config: ConfigModel {
                    impacts: (if self@.custom_impacts {
                        self@.config.impacts
                    } else {
                        Seq::empty()
                    }).push(impact.impact()),
                    ..self@.config
                },
                custom_impacts: true,
                ..self@
            }),
    {
        let mut b: Self = self;
        if !b.custom_impacts {
            b.config.impacts = Vec::new();
            b.custom_impacts = true;
            assert(b.config@.impacts =~= Seq::empty());
        }
        let added: Impact = impact.into_impact();
        proof {
            lemma_views_push(b.config.impacts@, added);
        }
        b.config.impacts.push(added);
        b
    }

    /// Sets the minutes before and after an event that are blocked.
    #[must_use]
    pub fn buffer_minutes(self, before: i64, after: i64) -> (r: Self)
        ensures
            r@ == self@.with(
                ConfigModel {
                    before_min: before as int,
                    after_min: after as int,
                    ..self@.config
                },
            ),
    {
        let mut b: Self = self;
        b.config.before_min = before;
        b.config.after_min = after;
        b
    }

    /// Sets the longest gap between blackouts that are merged.
    #[must_use]
    pub fn merge_threshold(self, minutes: i64) -> (r: Self)
        ensures
            r@ == self@.with(ConfigModel { merge_threshold_min: minutes as int, ..self@.config }),
    {
        let mut b: Self = self;
        b.config.merge_threshold_min = minutes;
        b
    }

    /// As [`RedFolderConfigBuilder::merge_threshold`].
    #[must_use]
    pub fn merge_threshold_minutes(self, minutes: i64) -> (r: Self)
        ensures
            r@ == self@.with(ConfigModel { merge_threshold_min: minutes as int, ..self@.config }),
    {
        self.merge_threshold(minutes)
    }

    /// Configures the weekend curfew. An unknown mode leaves the mode as it was and is reported
    /// when the configuration is built.
    #[must_use]
    pub fn weekend_curfew<M: IntoWeekendMode>(
        self,
        enabled: bool,
        start_utc: &str,
        end_utc: &str,
        mode: M,
    ) -> (r: Self)
        ensures
            r@ == (BuilderModel {
                config: ConfigModel {
                    weekend_enabled: enabled,
                    weekend_start: start_utc@,
                    weekend_end: end_utc@,
                    weekend_mode: match mode.mode() {
                        Ok(m) => m,
                        Err(_) => self@.config.weekend_mode,
                    },
                    ..self@.config
                },
                mode_err: match mode.mode() {
                    Ok(_) => None,
                    Err(e) => Some(e.text()),
                },
                ..self@
            }),
    {
        let mut b: Self = self;
        b.config.weekend_enabled = enabled;
        b.config.weekend_start = start_utc.to_string();
        b.config.weekend_end = end_utc.to_string();
        match mode.into_weekend_mode() {
            Ok(m) => {
                b.config.weekend_mode = m;
                b.mode_err = None;
            },
            Err(e) => {
                b.mode_err = Some(e.to_string());
            },
        }
        b
    }

    /// Sets the curfew mode.
    #[must_use]
    pub fn weekend_mode_typed(self, mode: WeekendMode) -> (r: Self)
        ensures
            r@ == (BuilderModel {
                config: ConfigModel { weekend_mode: mode, ..self@.config },
                mode_err: None,
                ..self@
            }),
    {
        let mut b: Self = self;
        b.config.weekend_mode = mode;
        b.mode_err = None;
        b
    }

    /// Asks for a warning that many minutes before a blackout.
    #[must_use]
    pub fn warning_minutes(self, minutes: i64) -> (r: Self)
        ensures
            r@ == self@.with(ConfigModel { warning_before_min: Some(minutes), ..self@.config }),
    {
        let mut b: Self = self;
        b.config.warning_before_min = Some(minutes);
        b
    }

    /// Whether all-day events block their day.
    #[must_use]
    pub fn include_all_day(self, include_them: bool) -> (r: Self)
        ensures
            r@ == self@.with(ConfigModel { include_all_day: include_them, ..self@.config }),
    {
        let mut b: Self = self;
        b.config.include_all_day = include_them;
        b
    }

    /// Whether tentative events block their day.
    #[must_use]
    pub fn include_tentative(self, include_them: bool) -> (r: Self)
        ensures
            r@ == self@.with(ConfigModel { include_tentative: include_them, ..self@.config }),
    {
        let mut b: Self = self;
        b.config.include_tentative = include_them;
        b
    }

    /// Sets what holds while calendar data is missing or stale.
    #[must_use]
    pub fn fail_safe_mode(self, mode: FailSafeMode) -> (r: Self)
        ensures
            r@ == self@.with(ConfigModel { fail_safe_mode: mode, ..self@.config }),
    {
        let mut b: Self = self;
        b.config.fail_safe_mode = mode;
        b
    }

    /// The configuration. What was given must be in order; see
    /// [`RedFolderConfigBuilder::try_build`] where that is not known.
    #[must_use]
    pub fn build(self) -> (r: RedFolderConfig)
        requires
            self@.fault() is None,
        ensures
            r@ == self@.config,
    {
        self.config
    }

    /// The configuration, or the first thing that is wrong with what was given.
    pub fn try_build(self) -> (r: Result<RedFolderConfig>)
        ensures
            result_view(r) == match self@.fault() {
                Some(e) => Err(e),
                None => Ok::<ConfigModel, ErrorModel>(self@.config),
            },
    {
        if let Some(err) = self.mode_err {
            return Err(RedFolderError::Curfew(err));
        }
        if let Err(e) = self.config.validate() {
            return Err(e);
        }
        Ok(self.config)
    }

    /// The configuration, or the first thing that is wrong with what was given where only standard
    /// currencies and impacts are allowed.
    pub fn try_build_strict(self) -> (r: Result<RedFolderConfig>)
        ensures
            result_view(r) == match self@.strict_fault() {
                Some(e) => Err(e),
                None => Ok::<ConfigModel, ErrorModel>(self@.config),
            },
    {
        if let Some(err) = self.mode_err {
            return Err(RedFolderError::Curfew(err));
        }
        if let Err(e) = self.config.validate_strict() {
            return Err(e);
        }
        Ok(self.config)
    }

    /// The configuration. What was given must be in order, with standard currencies and impacts
    /// only; see [`RedFolderConfigBuilder::try_build_strict`] where that is not known.
    #[must_use]
    pub fn build_strict(self) -> (r: RedFolderConfig)
        requires
            self@.strict_fault() is None,
        ensures
            r@ == self@.config,
    {
        self.config
    }
}

/// The default configuration, but for one currency and one impact level given as texts.
pub fn build_cli_config(currency: &str, impact: &str) -> (r: Result<RedFolderConfig>)
    ensures
        ({
            let config = ConfigModel {
                currencies: seq![CurrencyModel::parse(currency@)],
                impacts: seq![ImpactModel::parse(impact@)],
                ..ConfigModel::standard()
            };
            result_view(r) == match config.fault() {
                Some(e) => Err(e),
                None => Ok::<ConfigModel, ErrorModel>(config),
            }
        }),
{
    let builder: RedFolderConfigBuilder = RedFolderConfig::builder().currencies(
        vec![currency],
    ).impacts(vec![impact]);
    proof {
        assert(builder@.config.currencies =~= seq![CurrencyModel::parse(currency@)]);
        assert(builder@.config.impacts =~= seq![ImpactModel::parse(impact@)]);
    }
    builder.try_build()
}

/// What passes strict validation passes validation.
pub proof fn law_strict_is_stricter(config: ConfigModel)
    requires
        config.strict_fault() is None,
    ensures
        config.fault() is None,
{
}

/// Of a valid configuration, strict validation rejects nothing but non-standard currencies and
/// impacts.
pub proof fn law_strict_rejects_custom_entries_only(config: ConfigModel)
    requires
        config.fault() is None,
    ensures
        config.strict_fault() is None <==> {
            &&& forall|i: int|
                0 <= i < config.currencies.len() ==> !((#[trigger] config.currencies[i]) is Custom)
            &&& forall|i: int|
                0 <= i < config.impacts.len() ==> !((#[trigger] config.impacts[i]) is Custom)
        },
{
    lemma_first_custom_currency(config.currencies);
    lemma_first_custom_impact(config.impacts);
}

proof fn lemma_first_custom_currency(s: Seq<CurrencyModel>)
    ensures
        first_custom_currency(s) is None <==> forall|i: int|
            0 <= i < s.len() ==> !((#[trigger] s[i]) is Custom),
    decreases s.len(),
{
    if s.len() > 0 {
        let rest = s.drop_first();
        lemma_first_custom_currency(rest);
        if forall|i: int| 0 <= i < s.len() ==> !((#[trigger] s[i]) is Custom) {
            assert forall|i: int| 0 <= i < rest.len() implies !((#[trigger] rest[i]) is Custom) by {
                assert(rest[i] == s[i + 1]);
            }
        } else {
            let i = choose|i: int| 0 <= i < s.len() && (#[trigger] s[i]) is Custom;
            assert(i > 0 ==> rest[i - 1] == s[i]);
        }
    }
}

proof fn lemma_first_custom_impact(s: Seq<ImpactModel>)
    ensures
        first_custom_impact(s) is None <==> forall|i: int|
            0 <= i < s.len() ==> !((#[trigger] s[i]) is Custom),
    decreases s.len(),
{
    if s.len() > 0 {
        let rest = s.drop_first();
        lemma_first_custom_impact(rest);
        if forall|i: int| 0 <= i < s.len() ==> !((#[trigger] s[i]) is Custom) {
            assert forall|i: int| 0 <= i < rest.len() implies !((#[trigger] rest[i]) is Custom) by {
                assert(rest[i] == s[i + 1]);
            }
        } else {
            let i = choose|i: int| 0 <= i < s.len() && (#[trigger] s[i]) is Custom;
            assert(i > 0 ==> rest[i - 1] == s[i]);
        }
    }
}

/// The weekend curfew of a valid configuration can be worked out for every time, whether the
/// curfew is on or not.
pub proof fn law_valid_curfew_is_never_in_error(config: ConfigModel, at: int)
    requires
        config.fault() is None,
    ensures
        curfew_window(at, config.weekend_start, config.weekend_end, config.weekend_mode) is Ok,
{
}

/// The currencies and impacts of the presets are not blank.
proof fn lemma_standard_texts()
    ensures
        !blank("USD"@),
        !blank("EUR"@),
        !blank("GBP"@),
        !blank("JPY"@),
        !blank("CAD"@),
        !blank("AUD"@),
        !blank("NZD"@),
        !blank("CHF"@),
        !blank("High"@),
        !blank("Medium"@),
{
    reveal_strlit("USD");
    reveal_strlit("EUR");
    reveal_strlit("GBP");
    reveal_strlit("JPY");
    reveal_strlit("CAD");
    reveal_strlit("AUD");
    reveal_strlit("NZD");
    reveal_strlit("CHF");
    reveal_strlit("High");
    reveal_strlit("Medium");
}

/// The default configuration and the presets pass strict validation.
pub proof fn law_presets_are_valid()
    ensures
        ConfigModel::standard().strict_fault() is None,
        ConfigModel::prop_firm().strict_fault() is None,
        ConfigModel::wide().strict_fault() is None,
{
    lemma_standard_texts();
    reveal_strlit("20:00");
    reveal_strlit("20:30");
    reveal_strlit("21:00");
    law_clock_time_of_digits("20:00"@);
    law_clock_time_of_digits("20:30"@);
    law_clock_time_of_digits("21:00"@);
    law_strict_rejects_custom_entries_only(ConfigModel::standard());
    law_strict_rejects_custom_entries_only(ConfigModel::prop_firm());
    law_strict_rejects_custom_entries_only(ConfigModel::wide());
}

/// A configuration is in order exactly if both filters hold entries and none that is blank, no number
/// of minutes is negative, and the curfew times are times, of which the end may be left out in weekend
/// mode.
pub proof fn law_configuration_in_order(config: ConfigModel)
    ensures
        config.fault() is None <==> {
            &&& config.currencies.len() > 0
            &&& forall|i: int|
                0 <= i < config.currencies.len() ==> trimmed(
                    (#[trigger] config.currencies[i]).text(),
                ).len() > 0
            &&& config.impacts.len() > 0
            &&& forall|i: int|
                0 <= i < config.impacts.len() ==> trimmed(
                    (#[trigger] config.impacts[i]).text(),
                ).len() > 0
            &&& config.before_min >= 0
            &&& config.after_min >= 0
            &&& config.merge_threshold_min >= 0
            &&& config.warning_before_min matches Some(minutes) ==> minutes >= 0
            &&& clock_time(config.weekend_start) is Some
            &&& config.weekend_mode == WeekendMode::Short ==> clock_time(config.weekend_end) is Some
            &&& config.weekend_end.len() > 0 ==> clock_time(config.weekend_end) is Some
        },
{
}

/// What is wrong with the filters of a configuration comes before what is wrong with its numbers, and
/// the currencies before the impacts.
pub proof fn law_faults_of_filters(config: ConfigModel, i: int)
    ensures
        config.currencies.len() == 0 ==> config.fault() == Some(
            ErrorModel::Config(
                "currencies filter cannot be empty; specify at least one currency or 'All'"@,
            ),
        ),
        0 <= i < config.currencies.len() && trimmed(config.currencies[i].text()).len() == 0
            ==> config.fault() == Some(
            ErrorModel::Config("currency filter cannot contain empty or blank strings"@),
        ),
        ({
            let currencies_hold = config.currencies.len() > 0 && forall|k: int|
                0 <= k < config.currencies.len() ==> trimmed(
                    (#[trigger] config.currencies[k]).text(),
                ).len() > 0;
            &&& currencies_hold && config.impacts.len() == 0 ==> config.fault() == Some(
                ErrorModel::Config(
                    "impacts filter cannot be empty; specify at least one impact level (e.g. 'High')"@,
                ),
            )
            &&& currencies_hold && 0 <= i < config.impacts.len() && trimmed(
                config.impacts[i].text(),
            ).len() == 0 ==> config.fault() == Some(
                ErrorModel::Config("impact filter cannot contain empty or blank strings"@),
            )
        }),
{
    if 0 <= i < config.currencies.len() && trimmed(config.currencies[i].text()).len() == 0 {
        assert(blank(config.currencies[i].text()));
    }
    if 0 <= i < config.impacts.len() && trimmed(config.impacts[i].text()).len() == 0 {
        assert(blank(config.impacts[i].text()));
    }
}

/// Where the filters are in order, the first number of minutes that is negative is named with its
/// value, and else the first curfew time that is no time is given.
pub proof fn law_faults_of_numbers_and_times(config: ConfigModel)
    requires
        config.currencies.len() > 0,
        forall|k: int|
            0 <= k < config.currencies.len() ==> trimmed(
                (#[trigger] config.currencies[k]).text(),
            ).len() > 0,
        config.impacts.len() > 0,
        forall|k: int|
            0 <= k < config.impacts.len() ==> trimmed(
                (#[trigger] config.impacts[k]).text(),
            ).len() > 0,
    ensures
        ({
            let negative = |name: Seq<char>, minutes: int|
                Some(
                    ErrorModel::Config(
                        name + " cannot be negative (got "@ + decimal(minutes) + ")"@,
                    ),
                );
            let warned = config.warning_before_min matches Some(minutes) ==> minutes >= 0;
            let (b, a, m) = (config.before_min, config.after_min, config.merge_threshold_min);
            let sound = b >= 0 && a >= 0 && m >= 0 && warned;
            &&& b < 0 ==> config.fault() == negative("before_min"@, b)
            &&& b >= 0 && a < 0 ==> config.fault() == negative("after_min"@, a)
            &&& b >= 0 && a >= 0 && m < 0 ==> config.fault() == negative("merge_threshold_min"@, m)
            &&& b >= 0 && a >= 0 && m >= 0 && !warned ==> config.fault() == negative(
                "warning_before_min"@,
                config.warning_before_min->Some_0 as int,
            )
            &&& sound && clock_time(config.weekend_start) is None ==> config.fault() == Some(
                ErrorModel::ParseTime(config.weekend_start),
            )
            &&& sound && clock_time(config.weekend_start) is Some && clock_time(
                config.weekend_end,
            ) is None && (config.weekend_mode == WeekendMode::Short || config.weekend_end.len() > 0)
                ==> config.fault() == Some(ErrorModel::ParseTime(config.weekend_end))
        }),
{
}

/// Strict validation names the first currency that is no standard one, and where there is none the
/// first such impact; what validation rejects it rejects for the same reason.
pub proof fn law_strict_names_the_first_custom_entry(config: ConfigModel, i: int)
    ensures
        config.fault() matches Some(e) ==> config.strict_fault() == Some(e),
        config.fault() is None && 0 <= i < config.currencies.len() && (forall|k: int|
            0 <= k < i ==> !((#[trigger] config.currencies[k]) is Custom))
            && config.currencies[i] is Custom ==> config.strict_fault() == Some(
            ErrorModel::Config(
                "unknown non-standard currency '"@ + config.currencies[i]->Custom_0
                    + "' rejected in strict mode"@,
            ),
        ),
        config.fault() is None && (forall|k: int|
            0 <= k < config.currencies.len() ==> !((#[trigger] config.currencies[k]) is Custom)) && 0
            <= i < config.impacts.len() && (forall|k: int|
            0 <= k < i ==> !((#[trigger] config.impacts[k]) is Custom)) && config.impacts[i] is Custom
            ==> config.strict_fault() == Some(
            ErrorModel::Config(
                "unknown non-standard impact '"@ + config.impacts[i]->Custom_0
                    + "' rejected in strict mode"@,
            ),
        ),
{
    lemma_first_custom_currency(config.currencies);
    if 0 <= i < config.currencies.len() && config.currencies[i] is Custom && forall|k: int|
        0 <= k < i ==> !((#[trigger] config.currencies[k]) is Custom) {
        lemma_custom_currency_at(config.currencies, i);
    }
    if 0 <= i < config.impacts.len() && config.impacts[i] is Custom && forall|k: int|
        0 <= k < i ==> !((#[trigger] config.impacts[k]) is Custom) {
        lemma_custom_impact_at(config.impacts, i);
    }
}

proof fn lemma_custom_currency_at(s: Seq<CurrencyModel>, i: int)
    requires
        0 <= i < s.len(),
        s[i] is Custom,
        forall|k: int| 0 <= k < i ==> !((#[trigger] s[k]) is Custom),
    ensures
        first_custom_currency(s) == Some(s[i]->Custom_0),
    decreases i,
{
    if i > 0 {
        let rest = s.drop_first();
        assert(!(s[0] is Custom));
        assert(rest[i - 1] == s[i]);
        assert forall|k: int| 0 <= k < i - 1 implies !((#[trigger] rest[k]) is Custom) by {
            assert(rest[k] == s[k + 1]);
        }
        lemma_custom_currency_at(rest, i - 1);
    }
}

proof fn lemma_custom_impact_at(s: Seq<ImpactModel>, i: int)
    requires
        0 <= i < s.len(),
        s[i] is Custom,
        forall|k: int| 0 <= k < i ==> !((#[trigger] s[k]) is Custom),
    ensures
        first_custom_impact(s) == Some(s[i]->Custom_0),
    decreases i,
{
    if i > 0 {
        let rest = s.drop_first();
        assert(!(s[0] is Custom));
        assert(rest[i - 1] == s[i]);
        assert forall|k: int| 0 <= k < i - 1 implies !((#[trigger] rest[k]) is Custom) by {
            assert(rest[k] == s[k + 1]);
        }
        lemma_custom_impact_at(rest, i - 1);
    }
}

/// The defaults: high-impact news of the dollar with half an hour before and after, blackouts merged
/// over half an hour, and a short curfew from 20:30 to 21:00. There are no warnings, only timed events
/// count, and missing data blocks nothing.
pub proof fn law_default_configuration()
    ensures
        ({
            let c = ConfigModel::standard();
            &&& c.enabled
            &&& c.currencies == seq![CurrencyModel::USD]
            &&& c.impacts == seq![ImpactModel::High]
            &&& c.before_min == 30 && c.after_min == 30 && c.merge_threshold_min == 30
            &&& c.weekend_enabled && c.weekend_mode == WeekendMode::Short
            &&& c.weekend_start == "20:30"@ && c.weekend_end == "21:00"@
            &&& c.warning_before_min is None
            &&& !c.include_all_day && !c.include_tentative
            &&& c.fail_safe_mode == FailSafeMode::FailOpen
        }),
{
}

/// The presets for prop firms and for wide buffers watch the eight major currencies, keep the curfew
/// until Monday, give warnings, and halt on data outages. They differ in their buffers, in the gaps
/// that they merge, and in the impacts that they watch.
pub proof fn law_presets_by_field()
    ensures
        ({
            let majors = seq![
                CurrencyModel::USD,
                CurrencyModel::EUR,
                CurrencyModel::GBP,
                CurrencyModel::JPY,
                CurrencyModel::CAD,
                CurrencyModel::AUD,
                CurrencyModel::NZD,
                CurrencyModel::CHF,
            ];
            let p = ConfigModel::prop_firm();
            let w = ConfigModel::wide();
            &&& p.enabled && w.enabled
            &&& p.currencies == majors && w.currencies == majors
            &&& p.impacts == seq![ImpactModel::High]
            &&& w.impacts == seq![ImpactModel::High, ImpactModel::Medium]
            &&& p.before_min == 5 && p.after_min == 5 && p.merge_threshold_min == 15
            &&& w.before_min == 30 && w.after_min == 30 && w.merge_threshold_min == 30
            &&& p.weekend_enabled && p.weekend_mode == WeekendMode::Weekend
            &&& w.weekend_enabled && w.weekend_mode == WeekendMode::Weekend
            &&& p.weekend_start == "20:00"@ && p.weekend_end == "21:00"@
            &&& w.weekend_start == "20:30"@ && w.weekend_end == "21:00"@
            &&& p.warning_before_min == Some(15i64) && w.warning_before_min == Some(30i64)
            &&& !p.include_all_day && !p.include_tentative
            &&& !w.include_all_day && !w.include_tentative
            &&& p.fail_safe_mode == FailSafeMode::FailClosed
            &&& w.fail_safe_mode == FailSafeMode::FailClosed
        }),
{
}

/// A builder starts from the defaults, with filters that the first entry given replaces. What is built
/// is rejected for an unknown curfew mode first, and else for what is wrong with the configuration.
pub proof fn law_builder_of_a_configuration(b: BuilderModel, config: ConfigModel)
    ensures
        BuilderModel::start().config == ConfigModel::standard(),
        !BuilderModel::start().custom_currencies && !BuilderModel::start().custom_impacts,
        BuilderModel::start().mode_err is None,
        b.with(config).config == config,
        b.with(config).custom_currencies == b.custom_currencies,
        b.with(config).custom_impacts == b.custom_impacts,
        b.with(config).mode_err == b.mode_err,
        b.mode_err matches Some(text) ==> b.fault() == Some(ErrorModel::Curfew(text))
            && b.strict_fault() == Some(ErrorModel::Curfew(text)),
        b.mode_err is None ==> b.fault() == b.config.fault() && b.strict_fault()
            == b.config.strict_fault(),
{
}

/// A builder takes a currency, an impact level or a curfew mode as it is, and a text for what it
/// denotes.
pub proof fn law_builder_reads_texts(
    currency: Currency,
    impact: Impact,
    mode: WeekendMode,
    text: &str,
    owned: String,
)
    ensures
        currency.currency() == currency@,
        text.currency() == CurrencyModel::parse(text@),
        owned.currency() == CurrencyModel::parse(owned@),
        impact.impact() == impact@,
        text.impact() == ImpactModel::parse(text@),
        owned.impact() == ImpactModel::parse(owned@),
        mode.mode() == Ok::<WeekendMode, ErrorModel>(mode),
        text.mode() == WeekendMode::parsed(text@),
        owned.mode() == WeekendMode::parsed(owned@),
        (&owned).mode() == WeekendMode::parsed(owned@),
{
}

/// Filters given to a builder are taken entry by entry, in their order.
pub proof fn law_builder_takes_every_entry<S: IntoCurrency, T: IntoImpact>(
    currencies: Seq<S>,
    impacts: Seq<T>,
    i: int,
)
    ensures
        currencies_of(currencies).len() == currencies.len(),
        0 <= i < currencies.len() ==> currencies_of(currencies)[i] == currencies[i].currency(),
        impacts_of(impacts).len() == impacts.len(),
        0 <= i < impacts.len() ==> impacts_of(impacts)[i] == impacts[i].impact(),
{
}

/// A configuration shows what its fields hold.
pub proof fn law_configuration_by_field(c: RedFolderConfig, i: int)
    ensures
        c@.enabled == c.enabled,
        c@.currencies.len() == c.currencies@.len(),
        0 <= i < c.currencies@.len() ==> c@.currencies[i] == c.currencies@[i]@,
        c@.impacts.len() == c.impacts@.len(),
        0 <= i < c.impacts@.len() ==> c@.impacts[i] == c.impacts@[i]@,
        c@.before_min == c.before_min && c@.after_min == c.after_min,
        c@.merge_threshold_min == c.merge_threshold_min,
        c@.weekend_enabled == c.weekend_enabled && c@.weekend_mode == c.weekend_mode,
        c@.weekend_start == c.weekend_start@ && c@.weekend_end == c.weekend_end@,
        c@.warning_before_min == c.warning_before_min,
        c@.include_all_day == c.include_all_day && c@.include_tentative == c.include_tentative,
        c@.fail_safe_mode == c.fail_safe_mode,
{
}

} // verus!
