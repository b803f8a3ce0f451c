//! The in-memory dataset: record shapes reduced to the identifiers this core
//! reads and rewrites, and the set of collections a fully populated dataset
//! holds.

use vstd::prelude::*;

verus! {

use crate::add_prefix::AddPrefix;
use crate::add_prefix::lemma_vj_prefixing_preserves_unique;
use crate::add_prefix::vj_keys_unique;
use crate::add_prefix::add_prefix_on_vehicle_journey_ids;
use crate::add_prefix::add_prefix_on_vehicle_journey_ids_and_values;
use crate::add_prefix::vj_keys_and_values_prefixed;
use crate::add_prefix::vj_keys_prefixed;
use crate::collection::Collection;
use crate::collection::CollectionWithId;
use crate::collection::Id;
use crate::collection::ids_prefixed;
use crate::collection::lemma_prefixing_shape;
use crate::read_utils::FromRow;
use crate::read_utils::find_column;
use crate::read_utils::spec_find_col;
use crate::strings::concat_str;

/// A transit record whose only datum this core reads is its identifier; the
/// schema-specific fields of the concrete record types are outside this
/// core's responsibility.
#[derive(Debug, Clone)]
pub struct TransitObject {
    pub id: String,
}

impl AddPrefix for TransitObject {
    /// The identifier is rewritten; nothing else is held.
    open spec fn prefixed_from(self, pre: Self, prefix: Seq<char>) -> bool {
        self.id@ == prefix + pre.id@
    }

    fn add_prefix(&mut self, prefix: &str) {
        let new_id = concat_str(prefix, self.id.as_str());
        self.id = new_id;
    }
}

impl Id for TransitObject {
    open spec fn spec_id(self) -> Seq<char> {
        self.id@
    }

    fn id(&self) -> (r: &str) {
        self.id.as_str()
    }

    fn set_id(&mut self, id: String) {
        self.id = id;
    }

    proof fn lemma_prefixed_id(post: Self, pre: Self, prefix: Seq<char>) {
    }
}

impl FromRow for TransitObject {
    /// The row converts when the header has an `id` column and the row
    /// reaches it.
    open spec fn row_ok(header: Seq<Seq<char>>, row: Seq<Seq<char>>) -> bool {
        spec_find_col(header, "id"@) matches Some(j) && 0 <= j < row.len()
    }

    open spec fn matches_row(self, header: Seq<Seq<char>>, row: Seq<Seq<char>>) -> bool {
        &&& Self::row_ok(header, row)
        &&& self.id@ == row[spec_find_col(header, "id"@)->0]
    }

    fn from_row(header: &Vec<String>, row: &Vec<String>) -> (r: Result<Self, String>) {
        match find_column(header, "id") {
            Some(j) => {
                if j < row.len() {
                    Ok(TransitObject { id: row[j].clone() })
                } else {
                    Err("the identifier column lies beyond the end of the row".to_owned())
                }
            },
            None => Err("the header has no identifier column".to_owned()),
        }
    }
}

/// The producer of a dataset.
#[derive(Debug, Clone)]
pub struct Contributor {
    pub id: String,
    pub name: String,
}

impl Default for Contributor {
    /// An empty contributor, used when no configuration is given.
    fn default() -> (r: Self)
        ensures
            r.id@ == Seq::<char>::empty(),
            r.name@ == Seq::<char>::empty(),
    {
        Contributor { id: String::new(), name: String::new() }
    }
}

impl AddPrefix for Contributor {
    /// The identifier is rewritten; the name is kept.
    open spec fn prefixed_from(self, pre: Self, prefix: Seq<char>) -> bool {
        &&& self.id@ == prefix + pre.id@
        &&& self.name == pre.name
    }

    fn add_prefix(&mut self, prefix: &str) {
        let new_id = concat_str(prefix, self.id.as_str());
        self.id = new_id;
    }
}

impl Id for Contributor {
    open spec fn spec_id(self) -> Seq<char> {
        self.id@
    }

    fn id(&self) -> (r: &str) {
        self.id.as_str()
    }

    fn set_id(&mut self, id: String) {
        self.id = id;
    }

    proof fn lemma_prefixed_id(post: Self, pre: Self, prefix: Seq<char>) {
    }
}

impl FromRow for Contributor {
    /// The row converts when the header has a `contributor_id` column and
    /// the row reaches it; the name column is optional.
    open spec fn row_ok(header: Seq<Seq<char>>, row: Seq<Seq<char>>) -> bool {
        spec_find_col(header, "contributor_id"@) matches Some(j) && 0 <= j < row.len()
    }

    open spec fn matches_row(self, header: Seq<Seq<char>>, row: Seq<Seq<char>>) -> bool {
        &&& Self::row_ok(header, row)
        &&& self.id@ == row[spec_find_col(header, "contributor_id"@)->0]
        &&& match spec_find_col(header, "contributor_name"@) {
            Some(k) => if 0 <= k < row.len() {
                self.name@ == row[k]
            } else {
                self.name@ == Seq::<char>::empty()
            },
            None => self.name@ == Seq::<char>::empty(),
        }
    }

    fn from_row(header: &Vec<String>, row: &Vec<String>) -> (r: Result<Self, String>) {
        let id_col = match find_column(header, "contributor_id") {
            Some(j) => j,
            None => {
                return Err("the header has no contributor_id column".to_owned());
            },
        };
        if id_col >= row.len() {
            return Err("the contributor_id column lies beyond the end of the row".to_owned());
        }
        let name = match find_column(header, "contributor_name") {
            Some(k) => if k < row.len() {
                row[k].clone()
            } else {
                String::new()
            },
            None => String::new(),
        };
        Ok(Contributor { id: row[id_col].clone(), name })
    }
}

/// One delivery of data by a contributor.
#[derive(Debug, Clone)]
pub struct Dataset {
    pub id: String,
    pub contributor_id: String,
}

impl Dataset {
    /// A dataset with the given identifier, belonging to the given
    /// contributor.
    pub fn new(id: String, contributor_id: String) -> (r: Self)
        ensures
            r.id == id,
            r.contributor_id == contributor_id,
    {
        Dataset { id, contributor_id }
    }
}

impl Default for Dataset {
    /// An empty dataset, used when no configuration is given.
    fn default() -> (r: Self)
        ensures
            r.id@ == Seq::<char>::empty(),
            r.contributor_id@ == Seq::<char>::empty(),
    {
        Dataset { id: String::new(), contributor_id: String::new() }
    }
}

impl AddPrefix for Dataset {
    /// Both the identifier and the contributor reference are rewritten.
    open spec fn prefixed_from(self, pre: Self, prefix: Seq<char>) -> bool {
        &&& self.id@ == prefix + pre.id@
        &&& self.contributor_id@ == prefix + pre.contributor_id@
    }

    fn add_prefix(&mut self, prefix: &str) {
        let new_id = concat_str(prefix, self.id.as_str());
        self.id = new_id;
        let new_ref = concat_str(prefix, self.contributor_id.as_str());
        self.contributor_id = new_ref;
    }
}

impl Id for Dataset {
    open spec fn spec_id(self) -> Seq<char> {
        self.id@
    }

    fn id(&self) -> (r: &str) {
        self.id.as_str()
    }

    fn set_id(&mut self, id: String) {
        self.id = id;
    }

    proof fn lemma_prefixed_id(post: Self, pre: Self, prefix: Seq<char>) {
    }
}

impl FromRow for Dataset {
    /// The row converts when the header has `dataset_id` and
    /// `contributor_id` columns and the row reaches both.
    open spec fn row_ok(header: Seq<Seq<char>>, row: Seq<Seq<char>>) -> bool {
        &&& spec_find_col(header, "dataset_id"@) matches Some(j) && 0 <= j < row.len()
        &&& spec_find_col(header, "contributor_id"@) matches Some(k) && 0 <= k < row.len()
    }

    open spec fn matches_row(self, header: Seq<Seq<char>>, row: Seq<Seq<char>>) -> bool {
        &&& Self::row_ok(header, row)
        &&& self.id@ == row[spec_find_col(header, "dataset_id"@)->0]
        &&& self.contributor_id@ == row[spec_find_col(header, "contributor_id"@)->0]
    }

    fn from_row(header: &Vec<String>, row: &Vec<String>) -> (r: Result<Self, String>) {
        let id_col = match find_column(header, "dataset_id") {
            Some(j) => j,
            None => {
                return Err("the header has no dataset_id column".to_owned());
            },
        };
        let ref_col = match find_column(header, "contributor_id") {
            Some(k) => k,
            None => {
                return Err("the header has no contributor_id column".to_owned());
            },
        };
        if id_col >= row.len() || ref_col >= row.len() {
            return Err("a required column lies beyond the end of the row".to_owned());
        }
        Ok(Dataset { id: row[id_col].clone(), contributor_id: row[ref_col].clone() })
    }
}

/// The full in-memory dataset: every top-level collection an ingestion run
/// fills, plus the sparse per-stop-time auxiliary maps keyed by
/// `(trip identifier, sequence number)`.
pub struct Collections {
    pub contributors: CollectionWithId<Contributor>,
    pub datasets: CollectionWithId<Dataset>,
    pub networks: CollectionWithId<TransitObject>,
    pub lines: CollectionWithId<TransitObject>,
    pub routes: CollectionWithId<TransitObject>,
    pub vehicle_journeys: CollectionWithId<TransitObject>,
    pub frequencies: Collection<TransitObject>,
    pub stop_areas: CollectionWithId<TransitObject>,
    pub stop_points: CollectionWithId<TransitObject>,
    pub stop_locations: CollectionWithId<TransitObject>,
    pub calendars: CollectionWithId<TransitObject>,
    pub companies: CollectionWithId<TransitObject>,
    pub comments: CollectionWithId<TransitObject>,
    pub equipments: CollectionWithId<TransitObject>,
    pub transfers: Collection<TransitObject>,
    pub trip_properties: CollectionWithId<TransitObject>,
    pub geometries: CollectionWithId<TransitObject>,
    pub admin_stations: Collection<TransitObject>,
    pub prices_v1: Collection<TransitObject>,
    pub od_fares_v1: Collection<TransitObject>,
    pub fares_v1: Collection<TransitObject>,
    pub tickets: CollectionWithId<TransitObject>,
    pub ticket_prices: Collection<TransitObject>,
    pub ticket_uses: CollectionWithId<TransitObject>,
    pub ticket_use_perimeters: Collection<TransitObject>,
    pub ticket_use_restrictions: Collection<TransitObject>,
    pub pathways: CollectionWithId<TransitObject>,
    pub levels: CollectionWithId<TransitObject>,
    pub grid_calendars: CollectionWithId<TransitObject>,
    pub grid_exception_dates: Collection<TransitObject>,
    pub grid_periods: Collection<TransitObject>,
    pub grid_rel_calendar_line: Collection<TransitObject>,
    pub stop_time_headsigns: Vec<((String, u32), String)>,
    pub stop_time_ids: Vec<((String, u32), String)>,
    pub stop_time_comments: Vec<((String, u32), String)>,
}

impl Collections {
    /// Each auxiliary map holds pairwise-distinct composite keys, as the
    /// mapping it stands for could not hold two equal keys.
    pub open spec fn stop_time_keys_unique(&self) -> bool {
        &&& vj_keys_unique(self.stop_time_headsigns@)
        &&& vj_keys_unique(self.stop_time_ids@)
        &&& vj_keys_unique(self.stop_time_comments@)
    }

    /// Every collection and auxiliary map is empty.
    pub open spec fn spec_is_empty(&self) -> bool {
        &&& self.contributors@.len() == 0
        &&& self.datasets@.len() == 0
        &&& self.networks@.len() == 0
        &&& self.lines@.len() == 0
        &&& self.routes@.len() == 0
        &&& self.vehicle_journeys@.len() == 0
        &&& self.frequencies@.len() == 0
        &&& self.stop_areas@.len() == 0
        &&& self.stop_points@.len() == 0
        &&& self.stop_locations@.len() == 0
        &&& self.calendars@.len() == 0
        &&& self.companies@.len() == 0
        &&& self.comments@.len() == 0
        &&& self.equipments@.len() == 0
        &&& self.transfers@.len() == 0
        &&& self.trip_properties@.len() == 0
        &&& self.geometries@.len() == 0
        &&& self.admin_stations@.len() == 0
        &&& self.prices_v1@.len() == 0
        &&& self.od_fares_v1@.len() == 0
        &&& self.fares_v1@.len() == 0
        &&& self.tickets@.len() == 0
        &&& self.ticket_prices@.len() == 0
        &&& self.ticket_uses@.len() == 0
        &&& self.ticket_use_perimeters@.len() == 0
        &&& self.ticket_use_restrictions@.len() == 0
        &&& self.pathways@.len() == 0
        &&& self.levels@.len() == 0
        &&& self.grid_calendars@.len() == 0
        &&& self.grid_exception_dates@.len() == 0
        &&& self.grid_periods@.len() == 0
        &&& self.grid_rel_calendar_line@.len() == 0
        &&& self.stop_time_headsigns@.len() == 0
        &&& self.stop_time_ids@.len() == 0
        &&& self.stop_time_comments@.len() == 0
    }
}

impl Default for Collections {
    /// A dataset with every collection empty.
    fn default() -> (r: Self)
        ensures
            r.spec_is_empty(),
    {
        Collections {
            contributors: CollectionWithId::default(),
            datasets: CollectionWithId::default(),
            networks: CollectionWithId::default(),
            lines: CollectionWithId::default(),
            routes: CollectionWithId::default(),
            vehicle_journeys: CollectionWithId::default(),
            frequencies: Collection::default(),
            stop_areas: CollectionWithId::default(),
            stop_points: CollectionWithId::default(),
            stop_locations: CollectionWithId::default(),
            calendars: CollectionWithId::default(),
            companies: CollectionWithId::default(),
            comments: CollectionWithId::default(),
            equipments: CollectionWithId::default(),
            transfers: Collection::default(),
            trip_properties: CollectionWithId::default(),
            geometries: CollectionWithId::default(),
            admin_stations: Collection::default(),
            prices_v1: Collection::default(),
            od_fares_v1: Collection::default(),
            fares_v1: Collection::default(),
            tickets: CollectionWithId::default(),
            ticket_prices: Collection::default(),
            ticket_uses: CollectionWithId::default(),
            ticket_use_perimeters: Collection::default(),
            ticket_use_restrictions: Collection::default(),
            pathways: CollectionWithId::default(),
            levels: CollectionWithId::default(),
            grid_calendars: CollectionWithId::default(),
            grid_exception_dates: Collection::default(),
            grid_periods: Collection::default(),
            grid_rel_calendar_line: Collection::default(),
            stop_time_headsigns: Vec::new(),
            stop_time_ids: Vec::new(),
            stop_time_comments: Vec::new(),
        }
    }
}

impl AddPrefix for Collections {
    /// Every collection is rewritten elementwise in a fixed declared order;
    /// the headsign map has only its keys rewritten, the stop-time identifier
    /// and comment maps have keys and values rewritten.
    open spec fn prefixed_from(self, pre: Self, prefix: Seq<char>) -> bool {
        &&& self.contributors.prefixed_from(pre.contributors, prefix)
        &&& self.datasets.prefixed_from(pre.datasets, prefix)
        &&& self.networks.prefixed_from(pre.networks, prefix)
        &&& self.lines.prefixed_from(pre.lines, prefix)
        &&& self.routes.prefixed_from(pre.routes, prefix)
        &&& self.vehicle_journeys.prefixed_from(pre.vehicle_journeys, prefix)
        &&& self.frequencies.prefixed_from(pre.frequencies, prefix)
        &&& self.stop_areas.prefixed_from(pre.stop_areas, prefix)
        &&& self.stop_points.prefixed_from(pre.stop_points, prefix)
        &&& self.stop_locations.prefixed_from(pre.stop_locations, prefix)
        &&& self.calendars.prefixed_from(pre.calendars, prefix)
        &&& self.companies.prefixed_from(pre.companies, prefix)
        &&& self.comments.prefixed_from(pre.comments, prefix)
        &&& self.equipments.prefixed_from(pre.equipments, prefix)
        &&& self.transfers.prefixed_from(pre.transfers, prefix)
        &&& self.trip_properties.prefixed_from(pre.trip_properties, prefix)
        &&& self.geometries.prefixed_from(pre.geometries, prefix)
        &&& self.admin_stations.prefixed_from(pre.admin_stations, prefix)
        &&& self.prices_v1.prefixed_from(pre.prices_v1, prefix)
        &&& self.od_fares_v1.prefixed_from(pre.od_fares_v1, prefix)
        &&& self.fares_v1.prefixed_from(pre.fares_v1, prefix)
        &&& self.tickets.prefixed_from(pre.tickets, prefix)
        &&& self.ticket_prices.prefixed_from(pre.ticket_prices, prefix)
        &&& self.ticket_uses.prefixed_from(pre.ticket_uses, prefix)
        &&& self.ticket_use_perimeters.prefixed_from(pre.ticket_use_perimeters, prefix)
        &&& self.ticket_use_restrictions.prefixed_from(pre.ticket_use_restrictions, prefix)
        &&& self.pathways.prefixed_from(pre.pathways, prefix)
        &&& self.levels.prefixed_from(pre.levels, prefix)
        &&& self.grid_calendars.prefixed_from(pre.grid_calendars, prefix)
        &&& self.grid_exception_dates.prefixed_from(pre.grid_exception_dates, prefix)
        &&& self.grid_periods.prefixed_from(pre.grid_periods, prefix)
        &&& self.grid_rel_calendar_line.prefixed_from(pre.grid_rel_calendar_line, prefix)
        &&& vj_keys_prefixed(self.stop_time_headsigns@, pre.stop_time_headsigns@, prefix)
        &&& vj_keys_and_values_prefixed(self.stop_time_ids@, pre.stop_time_ids@, prefix)
        &&& vj_keys_and_values_prefixed(self.stop_time_comments@, pre.stop_time_comments@, prefix)
    }

    fn add_prefix(&mut self, prefix: &str) {
        self.contributors.add_prefix(prefix);
        self.datasets.add_prefix(prefix);
        self.networks.add_prefix(prefix);
        self.lines.add_prefix(prefix);
        self.routes.add_prefix(prefix);
        self.vehicle_journeys.add_prefix(prefix);
        self.frequencies.add_prefix(prefix);
        self.stop_areas.add_prefix(prefix);
        self.stop_points.add_prefix(prefix);
        self.stop_locations.add_prefix(prefix);
        self.calendars.add_prefix(prefix);
        self.companies.add_prefix(prefix);
        self.comments.add_prefix(prefix);
        self.equipments.add_prefix(prefix);
        self.transfers.add_prefix(prefix);
        self.trip_properties.add_prefix(prefix);
        self.geometries.add_prefix(prefix);
        self.admin_stations.add_prefix(prefix);
        self.prices_v1.add_prefix(prefix);
        self.od_fares_v1.add_prefix(prefix);
        self.fares_v1.add_prefix(prefix);
        self.tickets.add_prefix(prefix);
        self.ticket_prices.add_prefix(prefix);
        self.ticket_uses.add_prefix(prefix);
        self.ticket_use_perimeters.add_prefix(prefix);
        self.ticket_use_restrictions.add_prefix(prefix);
        self.pathways.add_prefix(prefix);
        self.levels.add_prefix(prefix);
        self.grid_calendars.add_prefix(prefix);
        self.grid_exception_dates.add_prefix(prefix);
        self.grid_periods.add_prefix(prefix);
        self.grid_rel_calendar_line.add_prefix(prefix);
        let headsigns = add_prefix_on_vehicle_journey_ids(&self.stop_time_headsigns, prefix);
        self.stop_time_headsigns = headsigns;
        let ids = add_prefix_on_vehicle_journey_ids_and_values(&self.stop_time_ids, prefix);
        self.stop_time_ids = ids;
        let comments = add_prefix_on_vehicle_journey_ids_and_values(
            &self.stop_time_comments,
            prefix,
        );
        self.stop_time_comments = comments;
    }
}

/// Law: namespacing a whole dataset prefixes every identifier in every
/// identified collection and leaves the record count of every collection
/// and the length of every auxiliary map unchanged. (The keys and values of
/// the auxiliary maps are themselves pinned by `prefixed_from`.)
pub proof fn lemma_dataset_prefixing_shape(post: Collections, pre: Collections, prefix: Seq<char>)
    requires
        post.prefixed_from(pre, prefix),
    ensures
        ids_prefixed(post.contributors, pre.contributors, prefix),
        ids_prefixed(post.datasets, pre.datasets, prefix),
        ids_prefixed(post.networks, pre.networks, prefix),
        ids_prefixed(post.lines, pre.lines, prefix),
        ids_prefixed(post.routes, pre.routes, prefix),
        ids_prefixed(post.vehicle_journeys, pre.vehicle_journeys, prefix),
        ids_prefixed(post.stop_areas, pre.stop_areas, prefix),
        ids_prefixed(post.stop_points, pre.stop_points, prefix),
        ids_prefixed(post.stop_locations, pre.stop_locations, prefix),
        ids_prefixed(post.calendars, pre.calendars, prefix),
        ids_prefixed(post.companies, pre.companies, prefix),
        ids_prefixed(post.comments, pre.comments, prefix),
        ids_prefixed(post.equipments, pre.equipments, prefix),
        ids_prefixed(post.trip_properties, pre.trip_properties, prefix),
        ids_prefixed(post.geometries, pre.geometries, prefix),
        ids_prefixed(post.tickets, pre.tickets, prefix),
        ids_prefixed(post.ticket_uses, pre.ticket_uses, prefix),
        ids_prefixed(post.pathways, pre.pathways, prefix),
        ids_prefixed(post.levels, pre.levels, prefix),
        ids_prefixed(post.grid_calendars, pre.grid_calendars, prefix),
        post.frequencies@.len() == pre.frequencies@.len(),
        post.transfers@.len() == pre.transfers@.len(),
        post.admin_stations@.len() == pre.admin_stations@.len(),
        post.prices_v1@.len() == pre.prices_v1@.len(),
        post.od_fares_v1@.len() == pre.od_fares_v1@.len(),
        post.fares_v1@.len() == pre.fares_v1@.len(),
        post.ticket_prices@.len() == pre.ticket_prices@.len(),
        post.ticket_use_perimeters@.len() == pre.ticket_use_perimeters@.len(),
        post.ticket_use_restrictions@.len() == pre.ticket_use_restrictions@.len(),
        post.grid_exception_dates@.len() == pre.grid_exception_dates@.len(),
        post.grid_periods@.len() == pre.grid_periods@.len(),
        post.grid_rel_calendar_line@.len() == pre.grid_rel_calendar_line@.len(),
        post.stop_time_headsigns@.len() == pre.stop_time_headsigns@.len(),
        post.stop_time_ids@.len() == pre.stop_time_ids@.len(),
        post.stop_time_comments@.len() == pre.stop_time_comments@.len(),
{
    lemma_prefixing_shape(post.contributors, pre.contributors, prefix);
    lemma_prefixing_shape(post.datasets, pre.datasets, prefix);
    lemma_prefixing_shape(post.networks, pre.networks, prefix);
    lemma_prefixing_shape(post.lines, pre.lines, prefix);
    lemma_prefixing_shape(post.routes, pre.routes, prefix);
    lemma_prefixing_shape(post.vehicle_journeys, pre.vehicle_journeys, prefix);
    lemma_prefixing_shape(post.stop_areas, pre.stop_areas, prefix);
    lemma_prefixing_shape(post.stop_points, pre.stop_points, prefix);
    lemma_prefixing_shape(post.stop_locations, pre.stop_locations, prefix);
    lemma_prefixing_shape(post.calendars, pre.calendars, prefix);
    lemma_prefixing_shape(post.companies, pre.companies, prefix);
    lemma_prefixing_shape(post.comments, pre.comments, prefix);
    lemma_prefixing_shape(post.equipments, pre.equipments, prefix);
    lemma_prefixing_shape(post.trip_properties, pre.trip_properties, prefix);
    lemma_prefixing_shape(post.geometries, pre.geometries, prefix);
    lemma_prefixing_shape(post.tickets, pre.tickets, prefix);
    lemma_prefixing_shape(post.ticket_uses, pre.ticket_uses, prefix);
    lemma_prefixing_shape(post.pathways, pre.pathways, prefix);
    lemma_prefixing_shape(post.levels, pre.levels, prefix);
    lemma_prefixing_shape(post.grid_calendars, pre.grid_calendars, prefix);
}

/// Law: namespacing the dataset keeps the auxiliary maps' composite keys
/// pairwise distinct.
pub proof fn lemma_dataset_prefixing_preserves_key_uniqueness(
    post: Collections,
    pre: Collections,
    prefix: Seq<char>,
)
    requires
        post.prefixed_from(pre, prefix),
        pre.stop_time_keys_unique(),
    ensures
        post.stop_time_keys_unique(),
{
    lemma_vj_prefixing_preserves_unique(
        post.stop_time_headsigns@,
        pre.stop_time_headsigns@,
        prefix,
    );
    lemma_vj_prefixing_preserves_unique(post.stop_time_ids@, pre.stop_time_ids@, prefix);
    lemma_vj_prefixing_preserves_unique(post.stop_time_comments@, pre.stop_time_comments@, prefix);
}

} // verus!
